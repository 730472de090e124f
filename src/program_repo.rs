use vstd::prelude::*;
use crate::text::{same_text, owned_text};

verus! {

/// A program allowed to request lock and unlock instructions; `added_at` is
/// unix seconds.
#[derive(Debug)]
pub struct AuthorizedProgramRow {
    pub program_id: String,
    pub admin_pubkey: String,
    pub added_at: i64,
}

/// An audit row of one lock or unlock request; `block_time` is unix seconds.
#[derive(Debug)]
pub struct ProgramCallRow {
    pub tx_signature: String,
    pub caller_program: String,
    pub vault_pda: String,
    pub instruction: String,
    pub amount: Option<i64>,
    pub slot: i64,
    pub block_time: i64,
}

pub struct ProgramCallView {
    pub tx_signature: Seq<char>,
    pub caller_program: Seq<char>,
    pub vault_pda: Seq<char>,
    pub instruction: Seq<char>,
    pub amount: Option<i64>,
    pub slot: int,
    pub block_time: int,
}

impl View for ProgramCallRow {
    type V = ProgramCallView;

    open spec fn view(&self) -> ProgramCallView {
        ProgramCallView {
            tx_signature: self.tx_signature@,
            caller_program: self.caller_program@,
            vault_pda: self.vault_pda@,
            instruction: self.instruction@,
            amount: self.amount,
            slot: self.slot as int,
            block_time: self.block_time as int,
        }
    }
}

/// Append with conflict-ignore on the signature.
pub open spec fn insert_call_result(cs: Seq<ProgramCallView>, c: ProgramCallView) -> Seq<ProgramCallView> {
    if exists|i: int| 0 <= i < cs.len() && cs[i].tx_signature == c.tx_signature {
        cs
    } else {
        cs.push(c)
    }
}

/// The authorised-program registry and the append-only call audit.
pub struct ProgramRepository {
    programs: Vec<AuthorizedProgramRow>,
    calls: Vec<ProgramCallRow>,
}

impl ProgramRepository {
    /// The authorised program keys, in the order they were added.
    pub closed spec fn authorized(&self) -> Seq<Seq<char>> {
        self.programs@.map_values(|p: AuthorizedProgramRow| p.program_id@)
    }

    /// The audit rows, oldest first.
    pub closed spec fn calls(&self) -> Seq<ProgramCallView> {
        self.calls@.map_values(|c: ProgramCallRow| c@)
    }

    pub fn new() -> (r: ProgramRepository)
        ensures
            r.authorized() == Seq::<Seq<char>>::empty(),
            r.calls() == Seq::<ProgramCallView>::empty(),
    {
        let r = ProgramRepository { programs: Vec::new(), calls: Vec::new() };
        assert(r.authorized() =~= Seq::<Seq<char>>::empty());
        assert(r.calls() =~= Seq::<ProgramCallView>::empty());
        r
    }

    pub fn call_count(&self) -> (r: usize)
        ensures
            r == self.calls().len(),
    {
        self.calls.len()
    }

    pub fn call_at(&self, i: usize) -> (r: &ProgramCallRow)
        requires
            i < self.calls().len(),
        ensures
            r@ == self.calls()[i as int],
    {
        &self.calls[i]
    }

    /// Whether `program_id` is in the registry.
    pub fn is_program_authorized(&self, program_id: &str) -> (r: bool)
        ensures
            r == self.authorized().contains(program_id@),
    {
        let mut i: usize = 0;
        while i < self.programs.len()
            invariant
                0 <= i <= self.programs@.len(),
                forall|j: int| 0 <= j < i ==> self.authorized()[j] != program_id@,
            decreases self.programs@.len() - i,
        {
            if same_text(self.programs[i].program_id.as_str(), program_id) {
                assert(self.authorized()[i as int] == program_id@);
                return true;
            }
            i = i + 1;
        }
        false
    }

    /// Adds `program_id` unless it is already in the registry.
    pub fn insert_authorized_program(&mut self, program_id: &str, admin_pubkey: &str, added_at: i64)
        ensures
            final(self).authorized() == if old(self).authorized().contains(program_id@) {
                old(self).authorized()
            } else {
                old(self).authorized().push(program_id@)
            },
            final(self).calls() == old(self).calls(),
    {
        if self.is_program_authorized(program_id) {
            return;
        }
        let ghost before = self.programs@;
        self.programs.push(
            AuthorizedProgramRow {
                program_id: owned_text(program_id),
                admin_pubkey: owned_text(admin_pubkey),
                added_at,
            },
        );
        assert(self.authorized() =~= before.map_values(|p: AuthorizedProgramRow| p.program_id@).push(program_id@));
    }

    /// Appends an audit row unless one with the same signature exists.
    pub fn insert_program_call(
        &mut self,
        tx_signature: &str,
        caller_program: &str,
        vault_pda: &str,
        instruction: &str,
        amount: Option<i64>,
        slot: i64,
        block_time: i64,
    )
        ensures
            final(self).authorized() == old(self).authorized(),
            final(self).calls() == insert_call_result(
                old(self).calls(),
                ProgramCallView {
                    tx_signature: tx_signature@,
                    caller_program: caller_program@,
                    vault_pda: vault_pda@,
                    instruction: instruction@,
                    amount,
                    slot: slot as int,
                    block_time: block_time as int,
                },
            ),
    {
        let mut i: usize = 0;
        while i < self.calls.len()
            invariant
                0 <= i <= self.calls@.len(),
                forall|j: int| 0 <= j < i ==> self.calls()[j].tx_signature != tx_signature@,
            decreases self.calls@.len() - i,
        {
            if same_text(self.calls[i].tx_signature.as_str(), tx_signature) {
                assert(self.calls()[i as int].tx_signature == tx_signature@);
                return;
            }
            i = i + 1;
        }
        let ghost before = self.calls@;
        let row = ProgramCallRow {
            tx_signature: owned_text(tx_signature),
            caller_program: owned_text(caller_program),
            vault_pda: owned_text(vault_pda),
            instruction: owned_text(instruction),
            amount,
            slot,
            block_time,
        };
        self.calls.push(row);
        assert(self.calls() =~= before.map_values(|c: ProgramCallRow| c@).push(row@));
    }
}

} // verus!
