//! What the server sends: terminal output, plain or wrapped in a message.

use crate::proto::host;
use crate::proto::host::HostMessage;
use crate::proto::host::InstructionView;
use vstd::prelude::*;

verus! {

/// The terminal output of an instruction.
pub open spec fn output_in(inst: InstructionView) -> Seq<u8> {
    match inst.hostbytes {
        Some(hb) => match hb.hoststring {
            Some(bytes) => bytes,
            None => seq![],
        },
        None => seq![],
    }
}

/// The acknowledgment of an instruction.
pub open spec fn ack_in(inst: InstructionView) -> Option<u64> {
    match inst.echoack {
        Some(ack) => ack.echo_ack_num,
        None => None,
    }
}

/// The later of two acknowledgments.
pub open spec fn later_ack(a: Option<u64>, b: Option<u64>) -> Option<u64> {
    match (a, b) {
        (Some(x), Some(y)) => Some(
            if y > x {
                y
            } else {
                x
            },
        ),
        (Some(x), None) => Some(x),
        (None, _) => b,
    }
}

/// The terminal output of instructions, in order.
pub open spec fn output_of(list: Seq<InstructionView>) -> Seq<u8>
    decreases list.len(),
{
    if list.len() == 0 {
        seq![]
    } else {
        output_of(list.drop_last()) + output_in(list.last())
    }
}

/// The latest acknowledgment of instructions.
pub open spec fn ack_of(list: Seq<InstructionView>) -> Option<u64>
    decreases list.len(),
{
    if list.len() == 0 {
        None
    } else {
        later_ack(ack_of(list.drop_last()), ack_in(list.last()))
    }
}

/// The terminal output and the acknowledgment in what the server sent. What is no message, or a
/// message without either, is taken for terminal output itself.
pub open spec fn extracted(data: Seq<u8>) -> (Seq<u8>, Option<u64>) {
    match host::message_of(data) {
        Some(list) => if output_of(list).len() > 0 || ack_of(list) is Some {
            (output_of(list), ack_of(list))
        } else {
            (data, None)
        },
        None => (data, None),
    }
}

/// Extracts raw terminal output and optional acknowledgment from a server diff.
///
/// A server may wrap its output in a message, or send it as it is.
pub fn extract_host_message(data: &[u8]) -> (res: (Vec<u8>, Option<u64>))
    ensures
        (res.0@, res.1) == extracted(data@),
{
    if let Ok(msg) = HostMessage::decode(data) {
        let mut vt_bytes: Vec<u8> = Vec::new();
        let mut echo_ack: Option<u64> = None;
        let mut i: usize = 0;
        assert(msg@.take(0) =~= Seq::<InstructionView>::empty());
        while i < msg.instruction.len()
            invariant
                i <= msg.instruction@.len(),
                vt_bytes@ == output_of(msg@.take(i as int)),
                echo_ack == ack_of(msg@.take(i as int)),
            decreases msg.instruction@.len() - i,
        {
            let ghost before = vt_bytes@;
            let inst = &msg.instruction[i];
            if let Some(hb) = &inst.hostbytes {
                if let Some(s) = &hb.hoststring {
                    vt_bytes.extend_from_slice(s.as_slice());
                }
            }
            if let Some(ea) = &inst.echoack {
                if let Some(num) = ea.echo_ack_num {
                    echo_ack = match echo_ack {
                        Some(best) => if num > best {
                            Some(num)
                        } else {
                            Some(best)
                        },
                        None => Some(num),
                    };
                }
            }
            proof {
                assert(vt_bytes@ =~= before + output_in(inst@));
                let next = msg@.take(i + 1);
                assert(next.drop_last() =~= msg@.take(i as int));
                assert(next.last() == inst@);
            }
            i = i + 1;
        }
        assert(msg@.take(msg@.len() as int) =~= msg@);
        if vt_bytes.len() > 0 || echo_ack.is_some() {
            return (vt_bytes, echo_ack);
        }
    }
    let mut raw: Vec<u8> = Vec::new();
    raw.extend_from_slice(data);
    assert(raw@ =~= data@);
    (raw, None)
}

/// What a server wrapped in a message is what the client gets out of it.
pub proof fn wrapped_output_is_extracted(list: Seq<InstructionView>)
    requires
        host::message_countable(list),
        output_of(list).len() > 0 || ack_of(list) is Some,
    ensures
        extracted(host::message_bytes(list)) == (output_of(list), ack_of(list)),
{
    host::message_roundtrip(list);
}

/// The output of instructions is that of the first ones followed by that of the others; an
/// instruction alone gives its own text, and one without any gives nothing.
pub proof fn outputs_follow_each_other(first: Seq<InstructionView>, more: Seq<InstructionView>)
    ensures
        output_of(first + more) == output_of(first) + output_of(more),
        first.len() == 1 && first[0].hostbytes is Some
            && first[0].hostbytes.unwrap().hoststring is Some ==> output_of(first)
            == first[0].hostbytes.unwrap().hoststring.unwrap(),
        first.len() == 1 && (first[0].hostbytes is None
            || first[0].hostbytes.unwrap().hoststring is None) ==> output_of(first).len() == 0,
    decreases more.len(),
{
    if first.len() == 1 {
        assert(first.drop_last() =~= seq![]);
        assert(output_of(first.drop_last()) =~= seq![]);
        assert(output_of(first) =~= output_in(first[0]));
    }
    if more.len() == 0 {
        assert(first + more =~= first);
        assert(output_of(first) + output_of(more) =~= output_of(first));
    } else {
        outputs_follow_each_other(first, more.drop_last());
        assert((first + more).drop_last() =~= first + more.drop_last());
        assert((first + more).last() == more.last());
        assert(output_of(first) + (output_of(more.drop_last()) + output_in(more.last()))
            =~= output_of(first) + output_of(more.drop_last()) + output_in(more.last()));
    }
}

/// Whether an instruction acknowledges input up to a number.
pub open spec fn acknowledges(inst: InstructionView, num: u64) -> bool {
    match inst.echoack {
        Some(ack) => ack.echo_ack_num == Some(num),
        None => false,
    }
}

/// The acknowledgment of instructions is the highest one among them, if there is any.
pub proof fn highest_ack_counts(list: Seq<InstructionView>)
    ensures
        forall|i: int, num: u64|
            0 <= i < list.len() && #[trigger] acknowledges(list[i], num) ==> ack_of(list) is Some
                && ack_of(list).unwrap() >= num,
        ack_of(list) is Some ==> exists|i: int|
            0 <= i < list.len() && #[trigger] acknowledges(list[i], ack_of(list).unwrap()),
    decreases list.len(),
{
    if list.len() > 0 {
        let init = list.drop_last();
        let n = list.len() - 1;
        highest_ack_counts(init);
        assert forall|i: int, num: u64|
            0 <= i < list.len() && #[trigger] acknowledges(list[i], num) implies ack_of(
            list,
        ) is Some && ack_of(list).unwrap() >= num by {
            if i < n {
                assert(acknowledges(init[i], num));
            }
        }
        if ack_of(list) is Some {
            let best = ack_of(list).unwrap();
            if ack_of(init) == Some(best) {
                let i = choose|i: int|
                    0 <= i < init.len() && #[trigger] acknowledges(init[i], best);
                assert(acknowledges(list[i], best));
            } else {
                assert(acknowledges(list[n], best));
            }
        }
    }
}

/// What is no message is terminal output as it stands, and so is a message that holds neither output
/// nor an acknowledgment.
pub proof fn raw_output_passes(data: Seq<u8>)
    requires
        match host::message_of(data) {
            Some(list) => output_of(list).len() == 0 && ack_of(list) is None,
            None => true,
        },
    ensures
        extracted(data) == (data, None::<u64>),
{
}

} // verus!
