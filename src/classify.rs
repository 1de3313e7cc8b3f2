use vstd::prelude::*;

use crate::amount::{amounts_match, within_tolerance};

verus! {

/// One output of a transaction: its amount in satoshis and, when the output
/// script decodes to one, its destination address.
pub struct TxOutput {
    pub amount_sat: u64,
    pub address: Option<String>,
}

/// Which output of a transfer went to the recipient and which one returned
/// change to the sender.
pub struct Classification {
    pub recipient_address: String,
    pub recipient_amount_sat: u64,
    pub change_address: String,
    pub change_amount_sat: u64,
}

impl Classification {
    /// The classification as (recipient address, recipient amount, change
    /// address, change amount).
    pub open spec fn view(&self) -> (Seq<char>, u64, Seq<char>, u64) {
        (self.recipient_address@, self.recipient_amount_sat, self.change_address@, self.change_amount_sat)
    }
}

/// The output pays the transferred amount, within tolerance, to an address.
pub open spec fn is_recipient_output(o: TxOutput, expected_sat: u64) -> bool {
    o.address is Some && within_tolerance(o.amount_sat as int, expected_sat as int)
}

/// The output pays a positive amount other than the transferred one to an
/// address.
pub open spec fn is_change_output(o: TxOutput, expected_sat: u64) -> bool {
    o.address is Some && o.amount_sat > 0 && !within_tolerance(
        o.amount_sat as int,
        expected_sat as int,
    )
}

/// Position of the last recipient output in `outs`, if any.
pub open spec fn last_recipient(outs: Seq<TxOutput>, expected_sat: u64) -> Option<int>
    decreases outs.len(),
{
    if outs.len() == 0 {
        None
    } else if is_recipient_output(outs.last(), expected_sat) {
        Some(outs.len() - 1)
    } else {
        last_recipient(outs.drop_last(), expected_sat)
    }
}

/// Position of the last change output in `outs`, if any.
pub open spec fn last_change(outs: Seq<TxOutput>, expected_sat: u64) -> Option<int>
    decreases outs.len(),
{
    if outs.len() == 0 {
        None
    } else if is_change_output(outs.last(), expected_sat) {
        Some(outs.len() - 1)
    } else {
        last_change(outs.drop_last(), expected_sat)
    }
}

/// The address of an output, the empty text where it has none.
pub open spec fn address_of(o: TxOutput) -> Seq<char> {
    match o.address {
        Some(a) => a@,
        None => Seq::empty(),
    }
}

/// How the outputs of a transfer of `expected_sat` from `sender` are
/// classified: nothing when no output pays the transferred amount; else the
/// last output that does is the recipient's, and the last other output with a
/// positive amount is the change, which defaults to the sender's address and
/// zero. Outputs without an address take no part.
pub open spec fn classification_of(outs: Seq<TxOutput>, expected_sat: u64, sender: Seq<char>) -> Option<
    (Seq<char>, u64, Seq<char>, u64),
> {
    match last_recipient(outs, expected_sat) {
        None => None,
        Some(i) => {
            let (ca, cv) = match last_change(outs, expected_sat) {
                None => (sender, 0u64),
                Some(j) => (address_of(outs[j]), outs[j].amount_sat),
            };
            Some((address_of(outs[i]), outs[i].amount_sat, ca, cv))
        },
    }
}

/// The view of an optional classification.
pub open spec fn classification_view(r: Option<Classification>) -> Option<(Seq<char>, u64, Seq<char>, u64)> {
    match r {
        None => None,
        Some(c) => Some(c@),
    }
}

spec fn index_view(r: Option<usize>) -> Option<int> {
    match r {
        None => None,
        Some(i) => Some(i as int),
    }
}

proof fn lemma_last_in_range(outs: Seq<TxOutput>, expected_sat: u64)
    ensures
        last_recipient(outs, expected_sat) matches Some(i) ==> 0 <= i < outs.len()
            && is_recipient_output(outs[i], expected_sat),
        last_change(outs, expected_sat) matches Some(j) ==> 0 <= j < outs.len() && is_change_output(
            outs[j],
            expected_sat,
        ),
    decreases outs.len(),
{
    if outs.len() > 0 {
        lemma_last_in_range(outs.drop_last(), expected_sat);
    }
}

/// Labels the outputs of a confirmed transfer of `expected_sat` satoshis sent
/// from `sender_address`. An output with an address whose amount lies within
/// tolerance of `expected_sat` is the recipient's; another output with an
/// address and a positive amount is the change. Where several outputs qualify
/// for one role, the last of them in output order is taken. Without a change
/// output the change is the sender's own address and zero. Returns `None`
/// when no output pays the transferred amount.
pub fn classify(outputs: &Vec<TxOutput>, expected_sat: u64, sender_address: &String) -> (r: Option<
    Classification,
>)
    ensures
        classification_view(r) == classification_of(outputs@, expected_sat, sender_address@),
{
    let mut rec: Option<usize> = None;
    let mut chg: Option<usize> = None;
    let mut i: usize = 0;
    while i < outputs.len()
        invariant
            i <= outputs@.len(),
            index_view(rec) == last_recipient(outputs@.subrange(0, i as int), expected_sat),
            index_view(chg) == last_change(outputs@.subrange(0, i as int), expected_sat),
            rec matches Some(x) ==> x < i,
            chg matches Some(x) ==> x < i,
        decreases outputs@.len() - i,
    {
        proof {
            assert(outputs@.subrange(0, i + 1).drop_last() == outputs@.subrange(0, i as int));
        }
        let o = &outputs[i];
        if o.address.is_some() {
            let m = amounts_match(o.amount_sat, expected_sat);
            if m {
                rec = Some(i);
            } else if o.amount_sat > 0 {
                chg = Some(i);
            }
        }
        i = i + 1;
    }
    proof {
        assert(outputs@.subrange(0, i as int) == outputs@);
        lemma_last_in_range(outputs@, expected_sat);
    }
    match rec {
        None => None,
        Some(ri) => {
            let recipient_address = match &outputs[ri].address {
                Some(a) => a.clone(),
                None => String::new(),
            };
            let (change_address, change_amount_sat) = match chg {
                None => (sender_address.clone(), 0u64),
                Some(ci) => {
                    let a = match &outputs[ci].address {
                        Some(a) => a.clone(),
                        None => String::new(),
                    };
                    (a, outputs[ci].amount_sat)
                },
            };
            Some(
                Classification {
                    recipient_address,
                    recipient_amount_sat: outputs[ri].amount_sat,
                    change_address,
                    change_amount_sat,
                },
            )
        },
    }
}

/// For a transaction with two addressed outputs, one paying the transferred
/// amount (within tolerance) and the other a positive amount outside it, the
/// first is the recipient and the second the change, in either output order.
pub proof fn lemma_two_outputs_any_order(
    a1: u64,
    addr1: String,
    a2: u64,
    addr2: String,
    expected_sat: u64,
    sender: Seq<char>,
)
    requires
        within_tolerance(a1 as int, expected_sat as int),
        a2 > 0,
        !within_tolerance(a2 as int, expected_sat as int),
    ensures
        ({
            let o1 = TxOutput { amount_sat: a1, address: Some(addr1) };
            let o2 = TxOutput { amount_sat: a2, address: Some(addr2) };
            &&& classification_of(seq![o1, o2], expected_sat, sender) == Some(
                (addr1@, a1, addr2@, a2),
            )
            &&& classification_of(seq![o2, o1], expected_sat, sender) == Some(
                (addr1@, a1, addr2@, a2),
            )
        }),
{
    let o1 = TxOutput { amount_sat: a1, address: Some(addr1) };
    let o2 = TxOutput { amount_sat: a2, address: Some(addr2) };
    let s12 = seq![o1, o2];
    let s21 = seq![o2, o1];
    assert(s12.drop_last() == seq![o1]);
    assert(s21.drop_last() == seq![o2]);
    assert(seq![o1].drop_last() == Seq::<TxOutput>::empty());
    assert(seq![o2].drop_last() == Seq::<TxOutput>::empty());
    assert(last_recipient(seq![o1], expected_sat) == Some(0int));
    assert(last_recipient(s12, expected_sat) == Some(0int));
    assert(last_recipient(s21, expected_sat) == Some(1int));
    assert(last_change(seq![o2], expected_sat) == Some(0int));
    assert(last_change(s12, expected_sat) == Some(1int));
    assert(last_change(Seq::<TxOutput>::empty(), expected_sat) == None::<int>);
    assert(last_change(seq![o1], expected_sat) == None::<int>);
    assert(last_change(s21, expected_sat) == Some(0int));
}

/// A transaction whose only output pays the recipient has the sender's own
/// address and zero as its change.
pub proof fn lemma_no_change_defaults_to_sender(
    amount_sat: u64,
    addr: String,
    expected_sat: u64,
    sender: Seq<char>,
)
    requires
        within_tolerance(amount_sat as int, expected_sat as int),
    ensures
        classification_of(
            seq![TxOutput { amount_sat, address: Some(addr) }],
            expected_sat,
            sender,
        ) == Some((addr@, amount_sat, sender, 0u64)),
{
    let o = TxOutput { amount_sat, address: Some(addr) };
    assert(seq![o].drop_last() == Seq::<TxOutput>::empty());
    assert(last_recipient(seq![o], expected_sat) == Some(0int));
    assert(last_change(Seq::<TxOutput>::empty(), expected_sat) == None::<int>);
    assert(last_change(seq![o], expected_sat) == None::<int>);
}

} // verus!
