//! The course that a connection takes, whatever its transport: it is
//! registered, it works, it is unregistered and it is over.
use crate::addr::{AddrKey, PeerAddr};
use crate::packet::Responder;
use vstd::prelude::*;

verus! {

/// How far a connection has come.
pub enum Stage {
    /// It is being registered.
    Opening,
    /// It is registered and works.
    Live,
    /// It is being unregistered.
    Leaving,
    /// It is over.
    Closed,
}

/// What an order means for the course of a connection.
pub enum Mark {
    /// The connection is registered.
    Enter,
    /// It reads, or hands on what it read.
    Work,
    /// It is unregistered.
    Strike,
    /// It is over.
    Over,
}

/// A connection at `stage` can give an order with this mark.
pub open spec fn allowed(stage: Stage, mark: Mark) -> bool {
    match stage {
        Stage::Opening => mark is Work || mark is Over,
        Stage::Live => mark is Work || mark is Strike,
        Stage::Leaving => mark is Over,
        Stage::Closed => mark is Over,
    }
}

/// How far a connection has come when it gives an order with this mark.
pub open spec fn reached(mark: Mark) -> Stage {
    match mark {
        Mark::Enter => Stage::Opening,
        Mark::Work => Stage::Live,
        Mark::Strike => Stage::Leaving,
        Mark::Over => Stage::Closed,
    }
}

/// A connection at `stage` can give orders with these marks, one after the
/// other.
pub open spec fn runs(stage: Stage, marks: Seq<Mark>) -> bool
    decreases marks.len(),
{
    marks.len() == 0 || {
        &&& allowed(stage, marks.first())
        &&& runs(reached(marks.first()), marks.drop_first())
    }
}

/// Order number `j` is that the connection is over.
pub open spec fn over_at(marks: Seq<Mark>, j: int) -> bool {
    0 <= j < marks.len() && marks[j] is Over
}

/// The connection is unregistered by one of the first `j` orders.
pub open spec fn struck_before(marks: Seq<Mark>, j: int) -> bool {
    exists|i: int| 0 <= i < j && #[trigger] marks[i] is Strike
}

/// In the course of a connection nothing is registered again, and after it is
/// unregistered or over it is only over. If it is registered, it is over only
/// after it was unregistered.
pub proof fn law_course_of_a_connection(stage: Stage, marks: Seq<Mark>)
    requires
        runs(stage, marks),
    ensures
        forall|i: int| 0 <= i < marks.len() ==> #[trigger] marks[i] !is Enter,
        forall|i: int, j: int|
            #![trigger marks[i], marks[j]]
            0 <= i < j < marks.len() && (marks[i] is Strike || marks[i] is Over)
                ==> marks[j] is Over,
        stage is Leaving || stage is Closed ==> forall|i: int|
            0 <= i < marks.len() ==> #[trigger] marks[i] is Over,
        stage is Live || (stage is Opening && marks.len() > 0 && marks[0] is Work) ==> forall|
            j: int,
        | #[trigger]
            over_at(marks, j) ==> struck_before(marks, j),
    decreases marks.len(),
{
    if marks.len() > 0 {
        let first = marks.first();
        let later = marks.drop_first();
        law_course_of_a_connection(reached(first), later);
        assert forall|i: int| 0 < i < marks.len() implies #[trigger] marks[i] == later[i - 1] by {}
        if stage is Live || (stage is Opening && first is Work) {
            assert forall|j: int| #[trigger] over_at(marks, j) implies struck_before(marks, j) by {
                if first is Work {
                    assert(over_at(later, j - 1));
                    let i = choose|i: int| 0 <= i < j - 1 && #[trigger] later[i] is Strike;
                    assert(marks[i + 1] is Strike);
                } else {
                    assert(marks[0] is Strike);
                }
            }
        }
    }
}

/// The table that orders with these marks make of `table`, given by the
/// connection with the peer at `addr`, as `ConnectionManager::register` and
/// `unregister` change it.
pub open spec fn filed(
    table: Map<AddrKey, Responder>,
    addr: PeerAddr,
    responder: Responder,
    marks: Seq<Mark>,
) -> Map<AddrKey, Responder>
    decreases marks.len(),
{
    if marks.len() == 0 {
        table
    } else {
        let before = filed(table, addr, responder, marks.drop_last());
        match marks.last() {
            Mark::Enter => before.insert(addr.key(), responder),
            Mark::Strike => before.remove(addr.key()),
            _ => before,
        }
    }
}

proof fn lemma_filed_until_struck(
    table: Map<AddrKey, Responder>,
    addr: PeerAddr,
    responder: Responder,
    marks: Seq<Mark>,
)
    requires
        marks.len() > 0,
        marks[0] is Enter,
        forall|i: int| 0 < i < marks.len() ==> #[trigger] marks[i] !is Enter,
    ensures
        filed(table, addr, responder, marks) == if struck_before(marks, marks.len() as int) {
            table.remove(addr.key())
        } else {
            table.insert(addr.key(), responder)
        },
    decreases marks.len(),
{
    let key = addr.key();
    let before = marks.drop_last();
    if marks.len() == 1 {
        assert(filed(table, addr, responder, before) == table);
    } else {
        assert forall|i: int| 0 <= i < before.len() implies #[trigger] before[i] == marks[i] by {}
        lemma_filed_until_struck(table, addr, responder, before);
        if struck_before(before, before.len() as int) {
            let i = choose|i: int| 0 <= i < before.len() && #[trigger] before[i] is Strike;
            assert(marks[i] is Strike);
        } else if marks.last() is Strike {
            assert(marks[marks.len() - 1] is Strike);
        } else {
            assert forall|i: int| 0 <= i < marks.len() implies #[trigger] marks[i] !is Strike by {
                if i < before.len() {
                    assert(before[i] !is Strike);
                }
            }
        }
        assert(table.insert(key, responder).remove(key) =~= table.remove(key));
        assert(table.remove(key).remove(key) =~= table.remove(key));
    }
}

/// From the moment it is registered a connection is filed under its address,
/// until it is unregistered. Once it is over nothing is filed there, and the
/// rest of the table is as it was.
pub proof fn law_connection_is_filed_while_open(
    table: Map<AddrKey, Responder>,
    addr: PeerAddr,
    responder: Responder,
    marks: Seq<Mark>,
)
    requires
        runs(Stage::Opening, marks),
        marks.len() > 0,
        marks[0] is Work,
    ensures
        ({
            let after = filed(table, addr, responder, seq![Mark::Enter] + marks);
            &&& after == if struck_before(marks, marks.len() as int) {
                table.remove(addr.key())
            } else {
                table.insert(addr.key(), responder)
            }
            &&& marks.last() is Over ==> after == table.remove(addr.key())
        }),
{
    let all = seq![Mark::Enter] + marks;
    law_course_of_a_connection(Stage::Opening, marks);
    assert forall|i: int| 0 < i < all.len() implies #[trigger] all[i] == marks[i - 1] by {}
    lemma_filed_until_struck(table, addr, responder, all);
    if struck_before(marks, marks.len() as int) {
        let i = choose|i: int| 0 <= i < marks.len() && #[trigger] marks[i] is Strike;
        assert(all[i + 1] is Strike);
    }
    if marks.last() is Over {
        assert(over_at(marks, marks.len() - 1));
    }
}

} // verus!
