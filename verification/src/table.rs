//! Decoding of the raw TCP connection table: a 4-byte little-endian entry
//! count followed by that many fixed-size rows, whose layout depends on the
//! address family. Iteration is bounded by the declared entry count, and the
//! buffer is checked to be large enough before any row is read.
use vstd::prelude::*;

verus! {

/// The numeric connection-state code that marks a listening endpoint.
pub const LISTEN_STATE: u32 = 2;

/// The protocol version class of an endpoint; each family has its own row
/// layout in the connection table.
#[derive(Clone, Copy, PartialEq, Eq, Structural, Debug)]
pub enum AddressFamily {
    V4,
    V6,
}

/// One decoded row of the connection table, holding only the fields this
/// system reads: the connection state code, the raw local-port field (port in
/// network byte order in the low 16 bits), and the owning process identifier.
#[derive(Clone, Copy, PartialEq, Eq, Structural, Debug)]
pub struct RawConnectionRow {
    pub state: u32,
    pub local_port_field: u32,
    pub pid: u32,
}

/// Why a table buffer could not be decoded.
#[derive(Clone, Copy, PartialEq, Eq, Structural, Debug)]
pub enum DecodeError {
    /// The buffer is shorter than the 4-byte entry-count header.
    TruncatedHeader,
    /// The buffer is shorter than the declared entry count requires.
    TruncatedRows,
}

/// Byte size of one table row for the given family.
pub open spec fn spec_row_size(family: AddressFamily) -> int {
    match family {
        AddressFamily::V4 => 24,
        AddressFamily::V6 => 56,
    }
}

/// Byte offset of the state field inside a row.
pub open spec fn spec_state_offset(family: AddressFamily) -> int {
    match family {
        AddressFamily::V4 => 0,
        AddressFamily::V6 => 48,
    }
}

/// Byte offset of the local-port field inside a row.
pub open spec fn spec_port_offset(family: AddressFamily) -> int {
    match family {
        AddressFamily::V4 => 8,
        AddressFamily::V6 => 20,
    }
}

/// Byte offset of the owning-process-identifier field inside a row.
pub open spec fn spec_pid_offset(family: AddressFamily) -> int {
    match family {
        AddressFamily::V4 => 20,
        AddressFamily::V6 => 52,
    }
}

pub fn row_size(family: AddressFamily) -> (n: usize)
    ensures
        n == spec_row_size(family),
{
    match family {
        AddressFamily::V4 => 24,
        AddressFamily::V6 => 56,
    }
}

fn state_offset(family: AddressFamily) -> (n: usize)
    ensures
        n == spec_state_offset(family),
{
    match family {
        AddressFamily::V4 => 0,
        AddressFamily::V6 => 48,
    }
}

fn port_offset(family: AddressFamily) -> (n: usize)
    ensures
        n == spec_port_offset(family),
{
    match family {
        AddressFamily::V4 => 8,
        AddressFamily::V6 => 20,
    }
}

fn pid_offset(family: AddressFamily) -> (n: usize)
    ensures
        n == spec_pid_offset(family),
{
    match family {
        AddressFamily::V4 => 20,
        AddressFamily::V6 => 52,
    }
}

/// The unsigned 32-bit value stored little-endian at byte offset `off`.
pub open spec fn spec_u32_le(b: Seq<u8>, off: int) -> int {
    b[off] + b[off + 1] * 0x100 + b[off + 2] * 0x10000 + b[off + 3] * 0x1000000
}

/// The entry count declared in the table header.
pub open spec fn spec_entry_count(b: Seq<u8>) -> int {
    spec_u32_le(b, 0)
}

fn read_u32_le(b: &Vec<u8>, off: usize) -> (r: u32)
    requires
        off + 4 <= b@.len(),
    ensures
        r == spec_u32_le(b@, off as int),
{
    let _len = b.len();
    (b[off] as u32) + (b[off + 1] as u32) * 0x100 + (b[off + 2] as u32) * 0x10000 + (b[off
        + 3] as u32) * 0x1000000
}

/// The row decoded at index `i` of the table held in `b`.
pub open spec fn spec_row(b: Seq<u8>, family: AddressFamily, i: int) -> RawConnectionRow {
    let base = 4 + i * spec_row_size(family);
    RawConnectionRow {
        state: spec_u32_le(b, base + spec_state_offset(family)) as u32,
        local_port_field: spec_u32_le(b, base + spec_port_offset(family)) as u32,
        pid: spec_u32_le(b, base + spec_pid_offset(family)) as u32,
    }
}

/// The (port, process identifier) pair a listening row contributes, with the
/// port already converted to host byte order.
#[derive(Clone, Copy, PartialEq, Eq, Structural, Debug)]
pub struct ListenerKey {
    pub port: u16,
    pub pid: u32,
}

/// The two bytes of `p` swapped: network byte order to host byte order.
pub open spec fn spec_ntohs(p: u16) -> u16 {
    ((p % 256) * 256 + p / 256) as u16
}

/// The host-order port held in the low 16 bits of a raw local-port field.
pub open spec fn spec_port_of_field(field: u32) -> u16 {
    spec_ntohs((field % 0x10000) as u16)
}

/// The (port, pid) pairs of the rows in listening state, in row order.
pub open spec fn spec_listening(rows: Seq<RawConnectionRow>) -> Seq<ListenerKey>
    decreases rows.len(),
{
    if rows.len() == 0 {
        Seq::empty()
    } else {
        let prev = spec_listening(rows.drop_last());
        let row = rows.last();
        if row.state == LISTEN_STATE {
            prev.push(ListenerKey { port: spec_port_of_field(row.local_port_field), pid: row.pid })
        } else {
            prev
        }
    }
}

/// The (port, pid) pair a single row contributes.
pub open spec fn key_of_row(r: RawConnectionRow) -> ListenerKey {
    ListenerKey { port: spec_port_of_field(r.local_port_field), pid: r.pid }
}

/// The subsequence of rows in listening state, in their original order.
pub open spec fn listening_rows(rows: Seq<RawConnectionRow>) -> Seq<RawConnectionRow> {
    rows.filter(|r: RawConnectionRow| r.state == LISTEN_STATE)
}

/// The (port, pid) pair of each row, in order.
pub open spec fn keys_of_rows(rows: Seq<RawConnectionRow>) -> Seq<ListenerKey> {
    rows.map_values(|r: RawConnectionRow| key_of_row(r))
}

/// Round trip of the filter: what it retains is exactly the listening rows,
/// in their original order, each mapped to its own converted port and its
/// verbatim process identifier — rows in any other state never appear.
pub proof fn lemma_listening_round_trip(rows: Seq<RawConnectionRow>)
    ensures
        spec_listening(rows) == keys_of_rows(listening_rows(rows)),
    decreases rows.len(),
{
    reveal(Seq::filter);
    if rows.len() == 0 {
        assert(keys_of_rows(listening_rows(rows)) =~= Seq::<ListenerKey>::empty());
    } else {
        let d = rows.drop_last();
        lemma_listening_round_trip(d);
        if rows.last().state == LISTEN_STATE {
            assert(listening_rows(rows) == listening_rows(d).push(rows.last()));
            assert(keys_of_rows(listening_rows(d).push(rows.last())) =~= keys_of_rows(
                listening_rows(d),
            ).push(key_of_row(rows.last())));
        } else {
            assert(listening_rows(rows) == listening_rows(d));
        }
    }
}

/// Keep only the rows in listening state, converting each retained row's
/// port field to host byte order and carrying its owning process identifier.
pub fn listening_keys(rows: &Vec<RawConnectionRow>) -> (r: Vec<ListenerKey>)
    ensures
        r@ == spec_listening(rows@),
{
    let mut r: Vec<ListenerKey> = Vec::new();
    let mut i: usize = 0;
    while i < rows.len()
        invariant
            i <= rows@.len(),
            r@ == spec_listening(rows@.take(i as int)),
        decreases rows@.len() - i,
    {
        let row = rows[i];
        if row.state == LISTEN_STATE {
            let port = crate::ntohs((row.local_port_field % 0x10000) as u16);
            r.push(ListenerKey { port, pid: row.pid });
        }
        assert(rows@.take(i + 1 as int).drop_last() =~= rows@.take(i as int));
        assert(rows@.take(i + 1 as int).last() == rows@[i as int]);
        i = i + 1;
    }
    assert(rows@.take(rows@.len() as int) =~= rows@);
    r
}

/// All rows the buffer declares, as a sequence.
pub open spec fn spec_rows(b: Seq<u8>, family: AddressFamily) -> Seq<RawConnectionRow> {
    Seq::new(spec_entry_count(b) as nat, |i: int| spec_row(b, family, i))
}

/// A buffer is well-formed when it holds its header and every declared row.
pub open spec fn table_well_formed(b: Seq<u8>, family: AddressFamily) -> bool {
    b.len() >= 4 && b.len() >= 4 + spec_entry_count(b) * spec_row_size(family)
}

/// Decode the table buffer into its declared rows, using the declared entry
/// count (never the allocation size) to bound iteration, and refusing any
/// buffer too short for its own declared contents.
pub fn decode_table(buf: &Vec<u8>, family: AddressFamily) -> (r: Result<
    Vec<RawConnectionRow>,
    DecodeError,
>)
    ensures
        ({
            let n = spec_entry_count(buf@);
            let rs = spec_row_size(family);
            match r {
                Ok(rows) => table_well_formed(buf@, family) && rows@.len() == n && rows@
                    == spec_rows(buf@, family) && (forall|i: int|
                    0 <= i < n ==> rows@[i] == spec_row(buf@, family, i)),
                Err(DecodeError::TruncatedHeader) => buf@.len() < 4,
                Err(DecodeError::TruncatedRows) => buf@.len() >= 4 && buf@.len() < 4 + n * rs,
            }
        }),
{
    if buf.len() < 4 {
        return Err(DecodeError::TruncatedHeader);
    }
    let count = read_u32_le(buf, 0);
    let rs = row_size(family);
    let blen = buf.len();
    let needed: u64 = 4 + (count as u64) * (rs as u64);
    assert(needed == 4 + spec_entry_count(buf@) * spec_row_size(family));
    if (blen as u64) < needed {
        return Err(DecodeError::TruncatedRows);
    }
    let mut rows: Vec<RawConnectionRow> = Vec::new();
    let mut i: u32 = 0;
    while i < count
        invariant
            i <= count,
            rows@.len() == i,
            forall|k: int| 0 <= k < i ==> rows@[k] == spec_row(buf@, family, k),
            rs == spec_row_size(family),
            count == spec_entry_count(buf@),
            blen == buf@.len(),
            4 + count * rs <= blen,
        decreases count - i,
    {
        assert(i * rs + rs <= count * rs) by (nonlinear_arith)
            requires
                i < count,
                0 <= rs,
        ;
        let base = 4 + (i as usize) * rs;
        let state = read_u32_le(buf, base + state_offset(family));
        let local_port_field = read_u32_le(buf, base + port_offset(family));
        let pid = read_u32_le(buf, base + pid_offset(family));
        rows.push(RawConnectionRow { state, local_port_field, pid });
        i = i + 1;
    }
    assert(rows@ =~= spec_rows(buf@, family));
    Ok(rows)
}

/// The full decode path for one address family: decode the declared rows and
/// keep the (port, pid) pair of each row in listening state.
pub fn decode_listening(buf: &Vec<u8>, family: AddressFamily) -> (r: Result<
    Vec<ListenerKey>,
    DecodeError,
>)
    ensures
        ({
            match r {
                Ok(keys) => table_well_formed(buf@, family) && keys@ == spec_listening(
                    spec_rows(buf@, family),
                ),
                Err(DecodeError::TruncatedHeader) => buf@.len() < 4,
                Err(DecodeError::TruncatedRows) => buf@.len() >= 4 && !table_well_formed(
                    buf@,
                    family,
                ),
            }
        }),
{
    match decode_table(buf, family) {
        Ok(rows) => Ok(listening_keys(&rows)),
        Err(e) => Err(e),
    }
}

} // verus!
