use vstd::prelude::*;

verus! {

/// The state of the loop that mines one block at a time until the miner's
/// confirmed balance becomes positive.
#[derive(PartialEq, Eq, Structural, Clone, Copy, Debug)]
pub struct Maturation {
    /// Blocks mined so far.
    pub blocks_mined: u64,
    /// The balance, in satoshis, read after the last block.
    pub balance_sat: u64,
    /// The most blocks that may be mined; `None` leaves the loop unbounded.
    pub max_blocks: Option<u64>,
}

/// What the loop does next.
#[derive(PartialEq, Eq, Structural, Clone, Copy, Debug)]
pub enum MaturationAction {
    /// Mine one block to the reward address, then read the balance.
    MineBlock,
    /// The balance is positive: stop.
    Done { blocks_mined: u64, balance_sat: u64 },
    /// The guard on the number of blocks was reached first.
    GiveUp { blocks_mined: u64 },
}

impl Maturation {
    /// The next action of the loop in state `self`.
    pub open spec fn spec_next_action(self) -> MaturationAction {
        if self.balance_sat > 0 {
            MaturationAction::Done { blocks_mined: self.blocks_mined, balance_sat: self.balance_sat }
        } else if self.blocks_mined == u64::MAX || (self.max_blocks matches Some(m)
            && self.blocks_mined >= m) {
            MaturationAction::GiveUp { blocks_mined: self.blocks_mined }
        } else {
            MaturationAction::MineBlock
        }
    }

    /// The state after one more block, with `balance_sat` read after it.
    pub open spec fn spec_after_block(self, balance_sat: u64) -> Maturation {
        Maturation { blocks_mined: (self.blocks_mined + 1) as u64, balance_sat, ..self }
    }

    /// A loop that has mined nothing and read a zero balance.
    pub fn new(max_blocks: Option<u64>) -> (r: Maturation)
        ensures
            r == (Maturation { blocks_mined: 0, balance_sat: 0, max_blocks }),
    {
        Maturation { blocks_mined: 0, balance_sat: 0, max_blocks }
    }

    /// Decides what the loop does next: stop once the balance is positive,
    /// give up at the guard, mine one more block otherwise.
    pub fn next_action(&self) -> (r: MaturationAction)
        ensures
            r == self.spec_next_action(),
            r matches MaturationAction::Done { balance_sat, .. } ==> balance_sat > 0,
            r is MineBlock ==> self.blocks_mined < u64::MAX,
    {
        if self.balance_sat > 0 {
            MaturationAction::Done { blocks_mined: self.blocks_mined, balance_sat: self.balance_sat }
        } else if self.blocks_mined == u64::MAX {
            MaturationAction::GiveUp { blocks_mined: self.blocks_mined }
        } else {
            match self.max_blocks {
                Some(m) => {
                    if self.blocks_mined >= m {
                        MaturationAction::GiveUp { blocks_mined: self.blocks_mined }
                    } else {
                        MaturationAction::MineBlock
                    }
                },
                None => MaturationAction::MineBlock,
            }
        }
    }

    /// Records a mined block and the balance read after it.
    pub fn record_block(&mut self, balance_sat: u64)
        requires
            old(self).blocks_mined < u64::MAX,
        ensures
            *final(self) == old(self).spec_after_block(balance_sat),
    {
        self.blocks_mined = self.blocks_mined + 1;
        self.balance_sat = balance_sat;
    }
}

/// The state after mining one block per entry of `balances`, each entry the
/// balance read after its block.
pub open spec fn after_blocks(m: Maturation, balances: Seq<u64>) -> Maturation
    decreases balances.len(),
{
    if balances.len() == 0 {
        m
    } else {
        after_blocks(m.spec_after_block(balances[0]), balances.drop_first())
    }
}

proof fn lemma_after_blocks(m: Maturation, balances: Seq<u64>)
    requires
        balances.len() > 0,
        m.blocks_mined + balances.len() <= u64::MAX,
    ensures
        after_blocks(m, balances) == (Maturation {
            blocks_mined: (m.blocks_mined + balances.len()) as u64,
            balance_sat: balances.last(),
            max_blocks: m.max_blocks,
        }),
    decreases balances.len(),
{
    let rest = balances.drop_first();
    if balances.len() > 1 {
        lemma_after_blocks(m.spec_after_block(balances[0]), rest);
        assert(rest.last() == balances.last());
    } else {
        assert(rest.len() == 0);
        assert(after_blocks(m.spec_after_block(balances[0]), rest) == m.spec_after_block(
            balances[0],
        ));
    }
}

/// Coinbase rewards count towards the balance only once 100 further blocks
/// are mined on top of them. On a fresh chain the balance is therefore zero
/// after each of the first 100 blocks and positive after block 101: an
/// unbounded loop mines exactly 101 blocks and stops with a positive balance.
pub proof fn lemma_matures_after_101_blocks(balances: Seq<u64>)
    requires
        balances.len() == 101,
        forall|k: int| 0 <= k < 100 ==> balances[k] == 0,
        balances[100] > 0,
    ensures
        forall|k: int|
            0 <= k < 101 ==> (#[trigger] after_blocks(
                Maturation { blocks_mined: 0, balance_sat: 0, max_blocks: None },
                balances.take(k),
            )).spec_next_action() == MaturationAction::MineBlock,
        after_blocks(
            Maturation { blocks_mined: 0, balance_sat: 0, max_blocks: None },
            balances,
        ).spec_next_action() == (MaturationAction::Done {
            blocks_mined: 101,
            balance_sat: balances[100],
        }),
{
    let m0 = Maturation { blocks_mined: 0, balance_sat: 0, max_blocks: None };
    assert forall|k: int| 0 <= k < 101 implies (#[trigger] after_blocks(
        m0,
        balances.take(k),
    )).spec_next_action() == MaturationAction::MineBlock by {
        if k > 0 {
            lemma_after_blocks(m0, balances.take(k));
        } else {
            assert(balances.take(k).len() == 0);
        }
    }
    lemma_after_blocks(m0, balances);
}

} // verus!
