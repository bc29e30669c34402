//! Finding the process that owns a local port, from the tables that the system hands out.
use crate::laws::ports::{has_row, long, port_in, row_start, the_owner_is_found_by_the_port_alone};
use crate::packet::{be16, u16_from_be};
use vstd::prelude::*;

verus! {

/// The status of a table query that succeeded.
pub const NO_ERROR: u32 = 0;

/// The bytes of a row of the TCP table: state, local address, local port, remote address, remote
/// port, owner.
pub const TCP_ROW: usize = 24;

/// The bytes of a row of the UDP table: local address, local port, owner.
pub const UDP_ROW: usize = 12;

/// Four bytes, least significant first, as a number.
pub open spec fn le32(b: Seq<u8>, at: int) -> u32 {
    (b[at] + b[at + 1] * 0x100 + b[at + 2] * 0x1_0000 + b[at + 3] * 0x100_0000) as u32
}

/// The size of a row.
pub open spec fn row_size(is_tcp: bool) -> int {
    if is_tcp {
        TCP_ROW as int
    } else {
        UDP_ROW as int
    }
}

/// Where row `i` begins, behind the number of rows.
pub open spec fn row_at(is_tcp: bool, i: int) -> int {
    if is_tcp {
        4 + i * 24
    } else {
        4 + i * 12
    }
}

/// The number of rows that a table states and holds in full.
pub open spec fn row_count(table: Seq<u8>, is_tcp: bool) -> int {
    let stated = le32(table, 0) as int;
    let held = if is_tcp {
        (table.len() - 4) / 24
    } else {
        (table.len() - 4) / 12
    };
    if stated <= held {
        stated
    } else {
        held
    }
}

/// The local port of row `i`, which stands in network order.
pub open spec fn row_port(table: Seq<u8>, is_tcp: bool, i: int) -> u16 {
    let at = row_at(is_tcp, i) + if is_tcp {
        8int
    } else {
        4int
    };
    be16(table[at], table[at + 1])
}

/// The owner of row `i`.
pub open spec fn row_owner(table: Seq<u8>, is_tcp: bool, i: int) -> u32 {
    le32(table, row_at(is_tcp, i) + row_size(is_tcp) - 4)
}

/// Whether row `i` is the first with the local port.
pub open spec fn is_first_row(table: Seq<u8>, is_tcp: bool, port: u16, i: int) -> bool {
    &&& 0 <= i < row_count(table, is_tcp)
    &&& row_port(table, is_tcp, i) == port
    &&& forall|k: int| 0 <= k < i ==> #[trigger] row_port(table, is_tcp, k) != port
}

/// The owner of a local port in a table: that of the first row with the port, if there is one.
pub open spec fn owner_in(table: Seq<u8>, is_tcp: bool, port: u16) -> Option<u32> {
    if exists|i: int| #[trigger] is_first_row(table, is_tcp, port, i) {
        Some(
            row_owner(
                table,
                is_tcp,
                choose|i: int| #[trigger] is_first_row(table, is_tcp, port, i),
            ),
        )
    } else {
        None
    }
}

/// The first row with a port is one row.
proof fn lemma_one_first_row(table: Seq<u8>, is_tcp: bool, port: u16, i: int, j: int)
    requires
        is_first_row(table, is_tcp, port, i),
        is_first_row(table, is_tcp, port, j),
    ensures
        i == j,
{
    assert(row_port(table, is_tcp, i) == port);
    assert(row_port(table, is_tcp, j) == port);
}

fn read_le32(b: &Vec<u8>, at: usize) -> (r: u32)
    requires
        at + 4 <= b.len(),
    ensures
        r == le32(b@, at as int),
{
    b[at] as u32 + b[at + 1] as u32 * 0x100 + b[at + 2] as u32 * 0x1_0000 + b[at + 3] as u32
        * 0x100_0000
}

/// The owner of the first row with the local port.
fn find_owner(table: &Vec<u8>, port: u16, is_tcp: bool) -> (r: Option<u32>)
    requires
        table.len() >= 4,
    ensures
        r == owner_in(table@, is_tcp, port),
{
    let stated: u32 = read_le32(table, 0);
    let row: usize = if is_tcp {
        TCP_ROW
    } else {
        UDP_ROW
    };
    let port_at: usize = if is_tcp {
        8
    } else {
        4
    };
    let mut i: u32 = 0;
    let mut at: usize = 4;
    let ghost t = table@;
    while i < stated && table.len() - at >= row
        invariant
            t == table@,
            row == row_size(is_tcp),
            port_at == (if is_tcp {
                8int
            } else {
                4int
            }),
            stated == le32(t, 0),
            i <= stated,
            at == row_at(is_tcp, i as int),
            at <= table.len(),
            forall|k: int| 0 <= k < i ==> #[trigger] row_port(t, is_tcp, k) != port,
        decreases stated - i,
    {
        proof {
            if is_tcp {
                assert(i + 1 <= (t.len() - 4) / 24);
            } else {
                assert(i + 1 <= (t.len() - 4) / 12);
            }
            assert(i < row_count(t, is_tcp));
        }
        if u16_from_be(table[at + port_at], table[at + port_at + 1]) == port {
            proof {
                assert(is_first_row(t, is_tcp, port, i as int));
                let j = choose|j: int| #[trigger] is_first_row(t, is_tcp, port, j);
                lemma_one_first_row(t, is_tcp, port, i as int, j);
            }
            return Some(read_le32(table, at + row - 4));
        }
        i = i + 1;
        at = at + row;
    }
    proof {
        if is_tcp {
            assert(i >= stated || i >= (t.len() - 4) / 24);
        } else {
            assert(i >= stated || i >= (t.len() - 4) / 12);
        }
        assert(row_count(t, is_tcp) <= i);
        assert forall|k: int| !#[trigger] is_first_row(t, is_tcp, port, k) by {
            if is_first_row(t, is_tcp, port, k) {
                assert(row_port(t, is_tcp, k) == port);
            }
        }
    }
    None
}

/// How often the tables are asked: those of TCP may lag behind a new connection, those of UDP
/// are not asked again, so as to add no delay.
pub open spec fn max_attempts(is_tcp: bool) -> u32 {
    if is_tcp {
        3
    } else {
        1
    }
}

/// What follows in the search for the owner of a port.
#[derive(Debug, Clone, Copy, PartialEq, Eq)]
pub enum LookupStep {
    /// Ask for a table of this size.
    Fetch(u32),
    /// Wait a moment, then begin anew with this attempt.
    Retry(u32),
    /// The search is over.
    Done(Option<u32>),
}

/// What follows an attempt that told nothing.
pub open spec fn retry_step(attempt: u32, is_tcp: bool) -> LookupStep {
    if attempt < max_attempts(is_tcp) {
        LookupStep::Retry((attempt + 1) as u32)
    } else {
        LookupStep::Done(None)
    }
}

fn retry(attempt: u32, is_tcp: bool) -> (r: LookupStep)
    ensures
        r == retry_step(attempt, is_tcp),
{
    let max: u32 = if is_tcp {
        3
    } else {
        1
    };
    if attempt < max {
        LookupStep::Retry(attempt + 1)
    } else {
        LookupStep::Done(None)
    }
}

/// What follows when the system has said how large its table is.
pub fn size_known(attempt: u32, is_tcp: bool, size: u32) -> (r: LookupStep)
    ensures
        r == (if size == 0 {
            retry_step(attempt, is_tcp)
        } else {
            LookupStep::Fetch(size)
        }),
{
    if size == 0 {
        retry(attempt, is_tcp)
    } else {
        LookupStep::Fetch(size)
    }
}

/// What follows when the system has filled in its table, or said that it could not.
pub open spec fn table_step(
    attempt: u32,
    is_tcp: bool,
    port: u16,
    status: u32,
    table: Seq<u8>,
) -> LookupStep {
    if status != NO_ERROR {
        retry_step(attempt, is_tcp)
    } else if table.len() < 4 {
        LookupStep::Done(None)
    } else {
        match owner_in(table, is_tcp, port) {
            Some(pid) => LookupStep::Done(Some(pid)),
            None => retry_step(attempt, is_tcp),
        }
    }
}

/// What follows when the system has filled in its table, or said that it could not.
pub fn table_fetched(
    attempt: u32,
    is_tcp: bool,
    port: u16,
    status: u32,
    table: &Vec<u8>,
) -> (r: LookupStep)
    ensures
        r == table_step(attempt, is_tcp, port, status, table@),
        forall|i: int|
            status == 0 && table.len() >= 4 && has_row(table@, is_tcp, i) && #[trigger] port_in(
                table@,
                is_tcp,
                i,
            ) == port && (forall|k: int| 0 <= k < i ==> #[trigger] port_in(table@, is_tcp, k) != port)
                ==> r == LookupStep::Done(
                Some(long(table@, row_start(is_tcp, i + 1) - 4) as u32),
            ),
{
    proof {
        assert forall|i: int|
            table.len() >= 4 && has_row(table@, is_tcp, i) && #[trigger] port_in(table@, is_tcp, i)
                == port && (forall|k: int|
                0 <= k < i ==> #[trigger] port_in(table@, is_tcp, k) != port) implies table_step(
            attempt,
            is_tcp,
            port,
            0,
            table@,
        ) == LookupStep::Done(Some(long(table@, row_start(is_tcp, i + 1) - 4) as u32)) by {
            the_owner_is_found_by_the_port_alone(table@, is_tcp, port, i, attempt);
        }
    }
    if status != NO_ERROR {
        return retry(attempt, is_tcp);
    }
    if table.len() < 4 {
        return LookupStep::Done(None);
    }
    match find_owner(table, port, is_tcp) {
        Some(pid) => LookupStep::Done(Some(pid)),
        None => retry(attempt, is_tcp),
    }
}

/// The owner of a port in a table is that of the first row with the port, and there is none just if
/// no row has the port.
pub proof fn owner_is_of_first_row(table: Seq<u8>, is_tcp: bool, port: u16, i: int)
    ensures
        is_first_row(table, is_tcp, port, i) ==> owner_in(table, is_tcp, port) == Some(
            row_owner(table, is_tcp, i),
        ),
        owner_in(table, is_tcp, port) is None <==> forall|k: int|
            0 <= k < row_count(table, is_tcp) ==> #[trigger] row_port(table, is_tcp, k) != port,
{
    if exists|j: int| #[trigger] is_first_row(table, is_tcp, port, j) {
        let j = choose|j: int| #[trigger] is_first_row(table, is_tcp, port, j);
        assert(row_port(table, is_tcp, j) == port);
        if is_first_row(table, is_tcp, port, i) {
            lemma_one_first_row(table, is_tcp, port, i, j);
        }
    } else {
        assert forall|k: int| 0 <= k < row_count(table, is_tcp) implies #[trigger] row_port(
            table,
            is_tcp,
            k,
        ) != port by {
            if row_port(table, is_tcp, k) == port {
                lemma_some_first_row(table, is_tcp, port, k);
            }
        }
    }
}

proof fn lemma_some_first_row(table: Seq<u8>, is_tcp: bool, port: u16, k: int)
    requires
        0 <= k < row_count(table, is_tcp),
        row_port(table, is_tcp, k) == port,
    ensures
        exists|i: int| #[trigger] is_first_row(table, is_tcp, port, i),
    decreases k,
{
    if exists|j: int| 0 <= j < k && #[trigger] row_port(table, is_tcp, j) == port {
        let j = choose|j: int| 0 <= j < k && #[trigger] row_port(table, is_tcp, j) == port;
        lemma_some_first_row(table, is_tcp, port, j);
    } else {
        assert(is_first_row(table, is_tcp, port, k));
    }
}

/// A search is over after its last attempt: attempts are counted up one by one, never past the
/// number allowed.
pub proof fn search_is_bounded(attempt: u32, is_tcp: bool)
    ensures
        retry_step(attempt, is_tcp) matches LookupStep::Retry(next) ==> next == attempt + 1 && next
            <= max_attempts(is_tcp),
        attempt >= max_attempts(is_tcp) ==> retry_step(attempt, is_tcp) == LookupStep::Done(None),
{
}

/// What the system says in one attempt: how large its table is, and, if it is asked for the table,
/// with which status and what it fills in.
pub struct Answer {
    pub size: u32,
    pub status: u32,
    pub table: Seq<u8>,
}

/// What follows an attempt in which the system says this.
pub open spec fn attempt_step(attempt: u32, is_tcp: bool, port: u16, said: Answer) -> LookupStep {
    if said.size == 0 {
        retry_step(attempt, is_tcp)
    } else {
        table_step(attempt, is_tcp, port, said.status, said.table)
    }
}

/// What a search gives from an attempt on; `said` holds what the system says in the attempts, the
/// first of which has the number 1.
pub open spec fn search(is_tcp: bool, port: u16, said: Seq<Answer>, attempt: u32) -> Option<u32>
    decreases max_attempts(is_tcp) - attempt,
{
    match attempt_step(attempt, is_tcp, port, said[attempt - 1]) {
        LookupStep::Retry(next) => search(is_tcp, port, said, next),
        LookupStep::Done(found) => found,
        LookupStep::Fetch(_) => None,
    }
}

/// The owner of the port in the table that the system hands out, if it hands one out that has the
/// port.
pub open spec fn told(is_tcp: bool, port: u16, said: Answer) -> Option<u32> {
    if said.size != 0 && said.status == NO_ERROR && said.table.len() >= 4 {
        owner_in(said.table, is_tcp, port)
    } else {
        None
    }
}

/// Whether the system hands out a table that is too short to say how many rows it has, which ends a
/// search.
pub open spec fn breaks_off(said: Answer) -> bool {
    said.size != 0 && said.status == NO_ERROR && said.table.len() < 4
}

/// Whether the table of the `k`-th attempt, counted from 0, is the first from the `from`-th on that
/// has the port, and no attempt before has ended the search.
pub open spec fn tells_first(is_tcp: bool, port: u16, said: Seq<Answer>, from: int, k: int) -> bool {
    &&& from <= k < max_attempts(is_tcp)
    &&& told(is_tcp, port, said[k]) is Some
    &&& forall|j: int|
        from <= j < k ==> told(is_tcp, port, #[trigger] said[j]) is None && !breaks_off(said[j])
}

/// A search gives the owner in the first table that has the port, of three for TCP and of one for
/// UDP, and nothing if there is no such table. An attempt that fails, or whose table does not have
/// the port, is passed over; a table that is too short ends the search.
pub proof fn search_gives_first_owner(
    is_tcp: bool,
    port: u16,
    said: Seq<Answer>,
    attempt: u32,
)
    requires
        1 <= attempt <= max_attempts(is_tcp),
        said.len() >= max_attempts(is_tcp),
    ensures
        forall|k: int|
            #[trigger] tells_first(is_tcp, port, said, attempt - 1, k) ==> search(
                is_tcp,
                port,
                said,
                attempt,
            ) == told(is_tcp, port, said[k]),
        (forall|k: int| !#[trigger] tells_first(is_tcp, port, said, attempt - 1, k)) ==> search(
            is_tcp,
            port,
            said,
            attempt,
        ) is None,
    decreases max_attempts(is_tcp) - attempt,
{
    let now = said[attempt - 1];
    let from = attempt - 1;
    if told(is_tcp, port, now) is Some {
        assert(tells_first(is_tcp, port, said, from, from));
    } else if !breaks_off(now) && attempt < max_attempts(is_tcp) {
        let next = (attempt + 1) as u32;
        search_gives_first_owner(is_tcp, port, said, next);
        assert forall|k: int|
            #![trigger tells_first(is_tcp, port, said, from, k)]
            #![trigger tells_first(is_tcp, port, said, next - 1, k)]
            tells_first(is_tcp, port, said, from, k) <==> tells_first(
                is_tcp,
                port,
                said,
                next - 1,
                k,
            ) by {}
        assert(search(is_tcp, port, said, attempt) == search(is_tcp, port, said, next));
    }
}

} // verus!
