//! The registry of processes and the selection of the next one to run.

use vstd::prelude::*;
use crate::process::{Process, ProcessView};
use crate::draws::{
    can_win, has_winner, lemma_positive_tickets_always_select, lemma_winner_or_none, no_winner,
    wins,
};
use crate::rng::gen_range;
use crate::tickets::{all_positive, running_total, ticket_total};

verus! {

/// Why no process could be selected.
#[derive(Debug, Clone, Copy, PartialEq, Eq, Structural)]
pub enum LotErr {
    /// The registry holds no process, or the draw selects none.
    NoProcesses,
    /// The tickets of the registry add up to zero or less, so there is no
    /// range to draw from.
    InvalidTicketTotal,
}

/// The processes that take part in the lottery, in the order in which they
/// were added.
pub struct Lottery {
    processes: Vec<Process>,
}

impl View for Lottery {
    type V = Seq<ProcessView>;

    closed spec fn view(&self) -> Seq<ProcessView> {
        self.processes@.map_values(|p: Process| p@)
    }
}

impl Lottery {
    /// A registry without processes.
    pub fn new() -> (lottery: Lottery)
        ensures
            lottery@ == Seq::<ProcessView>::empty(),
    {
        let lottery = Lottery { processes: Vec::new() };
        assert(lottery@ =~= Seq::<ProcessView>::empty());
        lottery
    }

    /// Appends `process` behind the processes already held. Nothing about
    /// the process is checked.
    pub fn add_process(&mut self, process: Process)
        ensures
            final(self)@ == old(self)@.push(process@),
    {
        let ghost added = process@;
        self.processes.push(process);
        assert(self@ =~= old(self)@.push(added));
    }

    /// The processes in the order in which they were added.
    pub fn processes(&self) -> (all: &[Process])
        ensures
            all@.map_values(|p: Process| p@) == self@,
    {
        self.processes.as_slice()
    }

    /// The tickets of all processes, added up. The result is wide enough
    /// for the tickets of any registry that memory can hold.
    pub fn get_total_tickets(&self) -> (total: i128)
        ensures
            total == ticket_total(self@),
    {
        let mut total: i128 = 0;
        let mut i: usize = 0;
        while i < self.processes.len()
            invariant
                i <= self.processes.len(),
                total == running_total(self@, i as int),
                -0x8000_0000 * i <= total <= 0x7fff_ffff * i,
            decreases self.processes.len() - i,
        {
            total = total + (*self.processes[i].tickets() as i128);
            i = i + 1;
        }
        total
    }

    /// Whether the registry holds no process.
    pub fn ended(&self) -> (ended: bool)
        ensures
            ended == (self@.len() == 0),
    {
        self.processes.is_empty()
    }

    /// The process that `draw` selects: the first one, in the order of
    /// insertion, at which the running total of tickets exceeds the draw.
    /// Where no running total exceeds it, there is none.
    pub fn holder_of(&self, draw: i128) -> (holder: Result<&Process, LotErr>)
        ensures
            holder is Ok <==> has_winner(self@, draw as int),
            match holder {
                Ok(process) => exists|i: int| wins(self@, draw as int, i) && process@ == self@[i],
                Err(err) => err == LotErr::NoProcesses && no_winner(self@, draw as int),
            },
    {
        let mut cumulative: i128 = 0;
        let mut i: usize = 0;
        while i < self.processes.len()
            invariant
                i <= self.processes.len(),
                cumulative == running_total(self@, i as int),
                -0x8000_0000 * i <= cumulative <= 0x7fff_ffff * i,
                forall|j: int| 0 <= j < i ==> #[trigger] running_total(self@, j + 1) <= draw,
            decreases self.processes.len() - i,
        {
            let process = &self.processes[i];
            cumulative = cumulative + (*process.tickets() as i128);
            if cumulative > draw {
                assert(wins(self@, draw as int, i as int));
                return Ok(process);
            }
            i = i + 1;
        }
        proof {
            lemma_winner_or_none(self@, draw as int);
        }
        Err(LotErr::NoProcesses)
    }

    /// Selects the next process to run: draws a number from zero up to, but
    /// not including, the total of tickets, and returns the process that the
    /// draw selects. Without negative tickets, each process is selected by as
    /// many of the possible draws as it holds tickets.
    ///
    /// An empty registry gives `NoProcesses`. A registry whose tickets add up
    /// to zero or less gives `InvalidTicketTotal`, since there is nothing to
    /// draw from. Every other registry gives one of its processes, whatever
    /// number is drawn; so does, in particular, every registry that is not
    /// empty and whose processes each hold at least one ticket.
    pub fn next_process(&self) -> (next: Result<&Process, LotErr>)
        ensures
            self@.len() == 0 ==> next == Err::<&Process, LotErr>(LotErr::NoProcesses),
            self@.len() > 0 && ticket_total(self@) <= 0 ==> next == Err::<&Process, LotErr>(
                LotErr::InvalidTicketTotal,
            ),
            self@.len() > 0 && ticket_total(self@) > 0 ==> (next matches Ok(process)
                && exists|i: int| can_win(self@, i) && process@ == self@[i]),
            self@.len() > 0 && all_positive(self@) ==> next is Ok,
    {
        if self.processes.is_empty() {
            return Err(LotErr::NoProcesses);
        }
        let total = self.get_total_tickets();
        if total <= 0 {
            proof {
                if all_positive(self@) {
                    lemma_positive_tickets_always_select(self@);
                }
            }
            return Err(LotErr::InvalidTicketTotal);
        }
        let mut rng = rand::thread_rng();
        let winner = gen_range(&mut rng, 0, total);
        let next = self.holder_of(winner);
        proof {
            match next {
                Ok(process) => {
                    let i = choose|i: int| wins(self@, winner as int, i) && process@ == self@[i];
                    assert(can_win(self@, i));
                },
                Err(_) => {
                    // The last running total is the total, which exceeds the draw.
                    assert(running_total(self@, (self@.len() - 1) + 1) <= winner);
                },
            }
        }
        next
    }
}

} // verus!
