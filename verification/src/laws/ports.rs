//! The search for the owner of a port, by the bytes of the tables.
use crate::pid_lookup::{
    attempt_step, is_first_row, owner_in, owner_is_of_first_row, retry_step, row_count, row_owner,
    row_port, search, table_step, Answer, LookupStep,
};
use vstd::prelude::*;

verus! {

/// The number in four bytes, low byte first.
pub open spec fn long(b: Seq<u8>, at: int) -> int {
    b[at] + 256 * b[at + 1] + 65536 * b[at + 2] + 16777216 * b[at + 3]
}

/// Where row `i` of a table begins: behind the number of rows and the rows before, of 24 bytes for
/// TCP and of 12 for UDP.
pub open spec fn row_start(is_tcp: bool, i: int) -> int {
    4 + if is_tcp {
        24 * i
    } else {
        12 * i
    }
}

/// Whether a table states and holds a row `i`.
pub open spec fn has_row(table: Seq<u8>, is_tcp: bool, i: int) -> bool {
    0 <= i < long(table, 0) && row_start(is_tcp, i + 1) <= table.len()
}

/// The port that stands in row `i`, high byte first: in the third field for TCP, in the second for
/// UDP.
pub open spec fn port_in(table: Seq<u8>, is_tcp: bool, i: int) -> int {
    let at = row_start(is_tcp, i) + if is_tcp {
        8int
    } else {
        4int
    };
    table[at] * 256 + table[at + 1]
}

proof fn lemma_rows(table: Seq<u8>, is_tcp: bool, i: int)
    requires
        table.len() >= 4,
    ensures
        has_row(table, is_tcp, i) <==> 0 <= i < row_count(table, is_tcp),
        has_row(table, is_tcp, i) ==> {
            &&& row_port(table, is_tcp, i) == port_in(table, is_tcp, i)
            &&& row_owner(table, is_tcp, i) == long(table, row_start(is_tcp, i + 1) - 4)
        },
{
    if is_tcp {
        assert(24 * (i + 1) == 24 * i + 24);
    } else {
        assert(12 * (i + 1) == 12 * i + 12);
    }
}

/// The owner of a port is found by the port alone, whatever the other bytes of the rows: if row `i`
/// has the port and no row before it has, the owner is the number in the last four bytes of row `i`.
pub proof fn the_owner_is_found_by_the_port_alone(
    table: Seq<u8>,
    is_tcp: bool,
    port: u16,
    i: int,
    attempt: u32,
)
    requires
        table.len() >= 4,
        has_row(table, is_tcp, i),
        port_in(table, is_tcp, i) == port,
        forall|k: int| 0 <= k < i ==> #[trigger] port_in(table, is_tcp, k) != port,
    ensures
        ({
            let pid = long(table, row_start(is_tcp, i + 1) - 4) as u32;
            &&& owner_in(table, is_tcp, port) == Some(pid)
            &&& table_step(attempt, is_tcp, port, 0, table) == LookupStep::Done(Some(pid))
        }),
{
    lemma_rows(table, is_tcp, i);
    assert forall|k: int| 0 <= k < i implies #[trigger] row_port(table, is_tcp, k) != port by {
        lemma_rows(table, is_tcp, k);
        assert(port_in(table, is_tcp, k) != port);
    }
    assert(is_first_row(table, is_tcp, port, i));
    owner_is_of_first_row(table, is_tcp, port, i);
}

/// No owner is found in a table if and only if none of its rows has the port.
pub proof fn no_owner_is_made_up(table: Seq<u8>, is_tcp: bool, port: u16)
    requires
        table.len() >= 4,
    ensures
        owner_in(table, is_tcp, port) is None <==> forall|k: int|
            has_row(table, is_tcp, k) ==> #[trigger] port_in(table, is_tcp, k) != port,
{
    owner_is_of_first_row(table, is_tcp, port, 0);
    assert forall|k: int| has_row(table, is_tcp, k) implies #[trigger] port_in(table, is_tcp, k)
        == row_port(table, is_tcp, k) by {
        lemma_rows(table, is_tcp, k);
    }
    assert forall|k: int| #[trigger] row_port(table, is_tcp, k) == port && 0 <= k < row_count(
        table,
        is_tcp,
    ) implies has_row(table, is_tcp, k) && port_in(table, is_tcp, k) == port by {
        lemma_rows(table, is_tcp, k);
    }
    assert forall|k: int| #[trigger] port_in(table, is_tcp, k) == port && has_row(
        table,
        is_tcp,
        k,
    ) implies 0 <= k < row_count(table, is_tcp) && row_port(table, is_tcp, k) == port by {
        lemma_rows(table, is_tcp, k);
    }
}

/// What follows a table: with a status other than 0 it is not looked at; one of fewer than four
/// bytes ends the search; and one without the port is as good as none. After the first and the
/// second attempt for TCP, and never for UDP, there is another.
pub proof fn what_follows_a_table(
    attempt: u32,
    is_tcp: bool,
    port: u16,
    status: u32,
    table: Seq<u8>,
)
    ensures
        retry_step(attempt, is_tcp) == if is_tcp && attempt < 3 || !is_tcp && attempt < 1 {
            LookupStep::Retry((attempt + 1) as u32)
        } else {
            LookupStep::Done(None)
        },
        status != 0 ==> table_step(attempt, is_tcp, port, status, table) == retry_step(
            attempt,
            is_tcp,
        ),
        status == 0 && table.len() < 4 ==> table_step(attempt, is_tcp, port, status, table)
            == LookupStep::Done(None),
        status == 0 && table.len() >= 4 && (forall|k: int|
            has_row(table, is_tcp, k) ==> #[trigger] port_in(table, is_tcp, k) != port)
            ==> table_step(attempt, is_tcp, port, status, table) == retry_step(attempt, is_tcp),
{
    if table.len() >= 4 {
        no_owner_is_made_up(table, is_tcp, port);
    }
}

/// Whether an attempt passes the search on: the system has no table, or says that it failed, or its
/// table has no row with the port.
pub open spec fn says_nothing(is_tcp: bool, port: u16, said: Answer) -> bool {
    ||| said.size == 0
    ||| said.status != 0
    ||| said.table.len() >= 4 && forall|k: int|
        has_row(said.table, is_tcp, k) ==> #[trigger] port_in(said.table, is_tcp, k) != port
}

/// A TCP search asks up to three times, and a UDP search once. It gives what the first attempt gives
/// that does not pass it on, and nothing if all do.
pub proof fn tcp_is_asked_three_times_and_udp_once(port: u16, said: Seq<Answer>)
    requires
        said.len() >= 3,
    ensures
        says_nothing(false, port, said[0]) ==> search(false, port, said, 1) is None,
        says_nothing(true, port, said[0]) ==> search(true, port, said, 1) == search(
            true,
            port,
            said,
            2,
        ),
        says_nothing(true, port, said[1]) ==> search(true, port, said, 2) == search(
            true,
            port,
            said,
            3,
        ),
        says_nothing(true, port, said[2]) ==> search(true, port, said, 3) is None,
        forall|is_tcp: bool, attempt: u32|
            1 <= attempt <= 3 && said[attempt - 1].size != 0 && said[attempt - 1].status == 0
                && said[attempt - 1].table.len() >= 4 && !says_nothing(
                is_tcp,
                port,
                said[attempt - 1],
            ) ==> #[trigger] search(is_tcp, port, said, attempt) == owner_in(
                said[attempt - 1].table,
                is_tcp,
                port,
            ),
{
    assert forall|is_tcp: bool, attempt: u32| 1 <= attempt <= 3 implies #[trigger] attempt_step(
        attempt,
        is_tcp,
        port,
        said[attempt - 1],
    ) == if says_nothing(is_tcp, port, said[attempt - 1]) {
        retry_step(attempt, is_tcp)
    } else if said[attempt - 1].table.len() < 4 {
        LookupStep::Done(None)
    } else {
        LookupStep::Done(owner_in(said[attempt - 1].table, is_tcp, port))
    } by {
        let a = said[attempt - 1];
        what_follows_a_table(attempt, is_tcp, port, a.status, a.table);
        if a.table.len() >= 4 {
            no_owner_is_made_up(a.table, is_tcp, port);
        }
    }
    what_follows_a_table(1, true, port, 1, said[0].table);
    what_follows_a_table(2, true, port, 1, said[0].table);
    what_follows_a_table(3, true, port, 1, said[0].table);
    what_follows_a_table(1, false, port, 1, said[0].table);
    assert(attempt_step(1, false, port, said[0]) == attempt_step(1, false, port, said[1 - 1]));
    assert(attempt_step(1, true, port, said[0]) == attempt_step(1, true, port, said[1 - 1]));
    assert(attempt_step(2, true, port, said[1]) == attempt_step(2, true, port, said[2 - 1]));
    assert(attempt_step(3, true, port, said[2]) == attempt_step(3, true, port, said[3 - 1]));
}

} // verus!
