//! Byte layout of the sender records that publishing processes keep in
//! shared memory, and the scans that find one sender in them.
use vstd::prelude::*;

verus! {

/// Largest width or height, in pixels, that a sender record may announce.
pub const MAX_DIM: u32 = 8192;

/// Number of slots in the aggregate sender table.
pub const MAX_SENDERS: usize = 64;

/// Bytes of the NUL-terminated name field that opens each table slot.
pub const NAME_FIELD_LEN: usize = 256;

/// Size of one slot of the aggregate sender table: the name field, five
/// 32-bit fields (width, height, handle, format, usage) and a 512-byte
/// description.
pub const SLOT_SIZE: usize = 788;

/// Offsets of the width, height and handle fields inside a table slot.
pub const SLOT_WIDTH_AT: usize = 256;
pub const SLOT_HEIGHT_AT: usize = 260;
pub const SLOT_HANDLE_AT: usize = 264;

/// Size of the record at the start of a per-sender region: width, height,
/// format, usage and handle as 32-bit fields, a 64-bit adapter id and
/// 256 bytes of padding.
pub const TEXTURE_INFO_SIZE: usize = 288;

/// Offsets of the width, height and handle fields in a per-sender record.
pub const INFO_WIDTH_AT: usize = 0;
pub const INFO_HEIGHT_AT: usize = 4;
pub const INFO_HANDLE_AT: usize = 16;

/// What discovery reports of a live sender: its size and the handle of
/// its shared texture.
#[derive(Clone, Copy, Debug, PartialEq, Eq, Structural)]
pub struct SenderInfo {
    pub width: u32,
    pub height: u32,
    pub handle: u32,
}

/// A record is usable only with a size in `1..=MAX_DIM` on both axes and a
/// handle other than zero.
pub open spec fn valid_info(info: SenderInfo) -> bool {
    &&& 0 < info.width <= MAX_DIM
    &&& 0 < info.height <= MAX_DIM
    &&& info.handle != 0
}

pub fn is_valid_info(info: SenderInfo) -> (r: bool)
    ensures
        r == valid_info(info),
{
    0 < info.width && info.width <= MAX_DIM && 0 < info.height && info.height <= MAX_DIM
        && info.handle != 0
}

/// The little-endian 32-bit integer stored at `at`.
pub open spec fn u32_le(b: Seq<u8>, at: int) -> u32 {
    (b[at] as int + b[at + 1] as int * 256 + b[at + 2] as int * 65536 + b[at + 3] as int
        * 16777216) as u32
}

pub fn read_u32_le(b: &[u8], at: usize) -> (r: u32)
    requires
        at + 4 <= b@.len(),
    ensures
        r == u32_le(b@, at as int),
{
    (b[at] as u32) + (b[at + 1] as u32) * 256 + (b[at + 2] as u32) * 65536 + (b[at + 3] as u32)
        * 16777216
}

/// Index of the first NUL byte at or after `i`, or the length when none.
pub open spec fn nul_from(s: Seq<u8>, i: int) -> int
    decreases s.len() - i,
{
    if i < 0 || i >= s.len() {
        s.len() as int
    } else if s[i] == 0 {
        i
    } else {
        nul_from(s, i + 1)
    }
}

/// The name held in a NUL-terminated field: the bytes before the first NUL,
/// or the whole field when it has none.
pub open spec fn c_name(field: Seq<u8>) -> Seq<u8> {
    field.take(nul_from(field, 0))
}

pub proof fn lemma_nul_from_bounds(s: Seq<u8>, i: int)
    requires
        0 <= i <= s.len(),
    ensures
        i <= nul_from(s, i) <= s.len(),
        forall|k: int| i <= k < nul_from(s, i) ==> s[k] != 0,
        nul_from(s, i) < s.len() ==> s[nul_from(s, i)] == 0,
    decreases s.len() - i,
{
    if i < s.len() && s[i] != 0 {
        lemma_nul_from_bounds(s, i + 1);
    }
}

/// Length of the NUL-terminated name in `b[start..start + max]`.
fn c_name_len(b: &[u8], start: usize, max: usize) -> (n: usize)
    requires
        start + max <= b@.len(),
    ensures
        n == nul_from(b@.subrange(start as int, start + max), 0),
        n <= max,
{
    let ghost field = b@.subrange(start as int, start + max);
    let len = b.len();
    let mut i: usize = 0;
    while i < max && b[start + i] != 0
        invariant
            i <= max,
            start + max <= b@.len(),
            len == b@.len(),
            field == b@.subrange(start as int, start + max),
            nul_from(field, i as int) == nul_from(field, 0),
        decreases max - i,
    {
        i = i + 1;
    }
    i
}

/// Whether the NUL-terminated name in `b[start..start + max]` is `name`.
pub fn c_name_is(b: &[u8], start: usize, max: usize, name: &[u8]) -> (r: bool)
    requires
        start + max <= b@.len(),
    ensures
        r == (c_name(b@.subrange(start as int, start + max)) == name@),
{
    let ghost field = b@.subrange(start as int, start + max);
    proof {
        lemma_nul_from_bounds(field, 0);
    }
    let len = b.len();
    let n = c_name_len(b, start, max);
    if n != name.len() {
        assert(c_name(field).len() != name@.len());
        return false;
    }
    let mut j: usize = 0;
    while j < n
        invariant
            j <= n,
            n == name@.len(),
            n <= max,
            n == nul_from(field, 0),
            start + max <= b@.len(),
            len == b@.len(),
            field == b@.subrange(start as int, start + max),
            forall|k: int| 0 <= k < j ==> b@[start + k] == name@[k],
        decreases n - j,
    {
        if b[start + j] != name[j] {
            assert(c_name(field)[j as int] != name@[j as int]);
            return false;
        }
        j = j + 1;
    }
    assert(c_name(field) =~= name@);
    true
}

/// Number of table slots that `table` holds in full, at most `MAX_SENDERS`.
pub open spec fn slot_count(table: Seq<u8>) -> int {
    let whole = table.len() as int / (SLOT_SIZE as int);
    if whole < MAX_SENDERS as int {
        whole
    } else {
        MAX_SENDERS as int
    }
}

pub open spec fn slot_start(k: int) -> int {
    k * (SLOT_SIZE as int)
}

/// The name in slot `k` of the table.
pub open spec fn slot_name(table: Seq<u8>, k: int) -> Seq<u8> {
    c_name(table.subrange(slot_start(k), slot_start(k) + NAME_FIELD_LEN as int))
}

/// Size and handle in slot `k` of the table.
pub open spec fn slot_info(table: Seq<u8>, k: int) -> SenderInfo {
    SenderInfo {
        width: u32_le(table, slot_start(k) + SLOT_WIDTH_AT as int),
        height: u32_le(table, slot_start(k) + SLOT_HEIGHT_AT as int),
        handle: u32_le(table, slot_start(k) + SLOT_HANDLE_AT as int),
    }
}

/// Slot `k` is accepted for `name`: it is valid and carries that name.
pub open spec fn slot_accepts(table: Seq<u8>, k: int, name: Seq<u8>) -> bool {
    valid_info(slot_info(table, k)) && slot_name(table, k) == name
}

/// The first slot at or after `k` that is accepted for `name`.
pub open spec fn table_lookup_from(table: Seq<u8>, name: Seq<u8>, k: int) -> Option<SenderInfo>
    decreases slot_count(table) - k,
{
    if k < 0 || k >= slot_count(table) {
        None
    } else if slot_accepts(table, k, name) {
        Some(slot_info(table, k))
    } else {
        table_lookup_from(table, name, k + 1)
    }
}

/// What a scan of the aggregate sender table reports for `name`.
pub open spec fn table_lookup(table: Seq<u8>, name: Seq<u8>) -> Option<SenderInfo> {
    table_lookup_from(table, name, 0)
}

/// Scans the aggregate sender table for the first valid slot named `name`.
pub fn scan_sender_list(table: &[u8], name: &[u8]) -> (r: Option<SenderInfo>)
    ensures
        r == table_lookup(table@, name@),
        r matches Some(info) ==> valid_info(info),
{
    proof {
        lemma_table_lookup_valid(table@, name@, 0);
    }
    let whole = table.len() / SLOT_SIZE;
    let count = if whole < MAX_SENDERS {
        whole
    } else {
        MAX_SENDERS
    };
    let mut k: usize = 0;
    while k < count
        invariant
            count == slot_count(table@),
            k <= count,
            count * SLOT_SIZE <= table@.len(),
            table_lookup_from(table@, name@, k as int) == table_lookup(table@, name@),
        decreases count - k,
    {
        assert((k + 1) * SLOT_SIZE <= count * SLOT_SIZE) by (nonlinear_arith)
            requires
                k + 1 <= count,
        ;
        let base = k * SLOT_SIZE;
        let info = SenderInfo {
            width: read_u32_le(table, base + SLOT_WIDTH_AT),
            height: read_u32_le(table, base + SLOT_HEIGHT_AT),
            handle: read_u32_le(table, base + SLOT_HANDLE_AT),
        };
        if is_valid_info(info) && c_name_is(table, base, NAME_FIELD_LEN, name) {
            return Some(info);
        }
        k = k + 1;
    }
    None
}

proof fn lemma_lookup_passes_rejected(table: Seq<u8>, name: Seq<u8>, j: int, k: int)
    requires
        0 <= j <= k,
        forall|i: int| j <= i < k ==> !slot_accepts(table, i, name),
    ensures
        table_lookup_from(table, name, j) == table_lookup_from(table, name, k),
    decreases k - j,
{
    if j < k {
        lemma_lookup_passes_rejected(table, name, j + 1, k);
    }
}

/// A valid slot that carries `name`, with no earlier slot accepted for that
/// name, is exactly what the scan reports: its size and handle.
pub proof fn lemma_table_lookup_finds(table: Seq<u8>, name: Seq<u8>, k: int)
    requires
        0 <= k < slot_count(table),
        valid_info(slot_info(table, k)),
        slot_name(table, k) == name,
        forall|j: int| 0 <= j < k ==> !slot_accepts(table, j, name),
    ensures
        table_lookup(table, name) == Some(slot_info(table, k)),
{
    lemma_lookup_passes_rejected(table, name, 0, k);
}

/// Slots that fail the validity rule are skipped: when every slot that
/// carries `name` is invalid, the scan reports no match.
pub proof fn lemma_table_lookup_skips_invalid(table: Seq<u8>, name: Seq<u8>)
    requires
        forall|k: int|
            0 <= k < slot_count(table) && slot_name(table, k) == name ==> !valid_info(
                slot_info(table, k),
            ),
    ensures
        table_lookup(table, name) is None,
{
    let n = if slot_count(table) < 0 {
        0
    } else {
        slot_count(table)
    };
    lemma_lookup_passes_rejected(table, name, 0, n);
}

/// The scan only ever reports a valid record.
pub proof fn lemma_table_lookup_valid(table: Seq<u8>, name: Seq<u8>, k: int)
    ensures
        table_lookup_from(table, name, k) matches Some(info) ==> valid_info(info),
    decreases slot_count(table) - k,
{
    if 0 <= k < slot_count(table) && !slot_accepts(table, k, name) {
        lemma_table_lookup_valid(table, name, k + 1);
    }
}

/// What the record at the start of a per-sender region announces.
pub open spec fn region_info(region: Seq<u8>) -> SenderInfo {
    SenderInfo {
        width: u32_le(region, INFO_WIDTH_AT as int),
        height: u32_le(region, INFO_HEIGHT_AT as int),
        handle: u32_le(region, INFO_HANDLE_AT as int),
    }
}

/// What a per-sender region reports: its record, when the region holds a
/// whole one and that record is valid.
pub open spec fn region_lookup(region: Seq<u8>) -> Option<SenderInfo> {
    if region.len() >= TEXTURE_INFO_SIZE && valid_info(region_info(region)) {
        Some(region_info(region))
    } else {
        None
    }
}

/// Reads the record at the start of a per-sender region.
pub fn read_individual_sender(region: &[u8]) -> (r: Option<SenderInfo>)
    ensures
        r == region_lookup(region@),
        r matches Some(info) ==> valid_info(info),
{
    if region.len() < TEXTURE_INFO_SIZE {
        return None;
    }
    let info = SenderInfo {
        width: read_u32_le(region, INFO_WIDTH_AT),
        height: read_u32_le(region, INFO_HEIGHT_AT),
        handle: read_u32_le(region, INFO_HANDLE_AT),
    };
    if is_valid_info(info) {
        Some(info)
    } else {
        None
    }
}

/// Stride between the names that the listing looks at in a sender table
/// region, and how many of them it looks at.
pub const LISTING_STRIDE: usize = 256;
pub const LISTING_SLOTS: usize = 16;

/// A byte that may stand in a listed name: printable ASCII or a space.
pub open spec fn printable(b: u8) -> bool {
    0x20 <= b <= 0x7E
}

/// Index of the first byte at or after `i` that may not stand in a name.
pub open spec fn run_from(s: Seq<u8>, i: int) -> int
    decreases s.len() - i,
{
    if i < 0 || i >= s.len() {
        s.len() as int
    } else if !printable(s[i]) {
        i
    } else {
        run_from(s, i + 1)
    }
}

/// Index of the first byte at or after `i` that is not a space.
pub open spec fn lead_from(s: Seq<u8>, i: int) -> int
    decreases s.len() - i,
{
    if i < 0 || i >= s.len() {
        s.len() as int
    } else if s[i] != 0x20 {
        i
    } else {
        lead_from(s, i + 1)
    }
}

/// One past the last byte before `j` that is not a space, or 0.
pub open spec fn trail_from(s: Seq<u8>, j: int) -> int
    decreases j,
{
    if j <= 0 || j > s.len() {
        0
    } else if s[j - 1] != 0x20 {
        j
    } else {
        trail_from(s, j - 1)
    }
}

/// `s` without leading and trailing spaces.
pub open spec fn trim_spaces(s: Seq<u8>) -> Seq<u8> {
    let a = lead_from(s, 0);
    if a >= s.len() {
        Seq::empty()
    } else {
        s.subrange(a, trail_from(s, s.len() as int))
    }
}

/// The name a listing reports for a field: its leading run of printable
/// bytes, trimmed, when that run is longer than three bytes and is not all
/// spaces.
pub open spec fn listed_name(field: Seq<u8>) -> Option<Seq<u8>> {
    let run = field.take(run_from(field, 0));
    if run.len() > 3 && trim_spaces(run).len() > 0 {
        Some(trim_spaces(run))
    } else {
        None
    }
}

pub open spec fn listing_slots(region: Seq<u8>) -> int {
    let whole = region.len() as int / (LISTING_STRIDE as int);
    if whole < LISTING_SLOTS as int {
        whole
    } else {
        LISTING_SLOTS as int
    }
}

/// The names listed from the first `n` fields of a region.
pub open spec fn listed_names(region: Seq<u8>, n: int) -> Seq<Seq<u8>>
    decreases n,
{
    if n <= 0 {
        Seq::empty()
    } else {
        let field = region.subrange((n - 1) * LISTING_STRIDE as int, n * LISTING_STRIDE as int);
        match listed_name(field) {
            Some(name) => listed_names(region, n - 1).push(name),
            None => listed_names(region, n - 1),
        }
    }
}

proof fn lemma_trail_from_bounds(s: Seq<u8>, j: int)
    requires
        0 <= j <= s.len(),
    ensures
        0 <= trail_from(s, j) <= j,
        lead_from(s, 0) < j ==> lead_from(s, 0) < trail_from(s, j),
    decreases j,
{
    if j > 0 && s[j - 1] == 0x20 {
        lemma_trail_from_bounds(s, j - 1);
        if lead_from(s, 0) < j && lead_from(s, 0) == j - 1 {
            lemma_lead_from_hits(s, 0);
        }
    }
}

proof fn lemma_lead_from_hits(s: Seq<u8>, i: int)
    requires
        0 <= i <= s.len(),
    ensures
        i <= lead_from(s, i) <= s.len(),
        lead_from(s, i) < s.len() ==> s[lead_from(s, i)] != 0x20,
    decreases s.len() - i,
{
    if i < s.len() && s[i] == 0x20 {
        lemma_lead_from_hits(s, i + 1);
    }
}

/// The name listed for the field `b[start..start + LISTING_STRIDE]`.
fn listed_name_at(b: &[u8], start: usize) -> (r: Option<Vec<u8>>)
    requires
        start + LISTING_STRIDE <= b@.len(),
    ensures
        match r {
            Some(v) => listed_name(b@.subrange(start as int, start + LISTING_STRIDE)) == Some(
                v@,
            ),
            None => listed_name(b@.subrange(start as int, start + LISTING_STRIDE)) is None,
        },
{
    let ghost field = b@.subrange(start as int, start + LISTING_STRIDE);
    let len = b.len();
    let mut n: usize = 0;
    while n < LISTING_STRIDE && 0x20 <= b[start + n] && b[start + n] <= 0x7E
        invariant
            n <= LISTING_STRIDE,
            start + LISTING_STRIDE <= b@.len(),
            len == b@.len(),
            field == b@.subrange(start as int, start + LISTING_STRIDE),
            run_from(field, n as int) == run_from(field, 0),
        decreases LISTING_STRIDE - n,
    {
        n = n + 1;
    }
    let ghost run = field.take(n as int);
    if n <= 3 {
        return None;
    }
    let mut a: usize = 0;
    while a < n && b[start + a] == 0x20
        invariant
            a <= n,
            n <= LISTING_STRIDE,
            start + LISTING_STRIDE <= b@.len(),
            len == b@.len(),
            field == b@.subrange(start as int, start + LISTING_STRIDE),
            run == field.take(n as int),
            lead_from(run, a as int) == lead_from(run, 0),
        decreases n - a,
    {
        a = a + 1;
    }
    if a >= n {
        return None;
    }
    let mut z: usize = n;
    while z > 0 && b[start + z - 1] == 0x20
        invariant
            z <= n,
            n <= LISTING_STRIDE,
            start + LISTING_STRIDE <= b@.len(),
            len == b@.len(),
            field == b@.subrange(start as int, start + LISTING_STRIDE),
            run == field.take(n as int),
            trail_from(run, z as int) == trail_from(run, n as int),
        decreases z,
    {
        z = z - 1;
    }
    proof {
        lemma_trail_from_bounds(run, n as int);
    }
    let mut out: Vec<u8> = Vec::new();
    let mut k: usize = a;
    while k < z
        invariant
            a <= k <= z,
            z <= n,
            n <= LISTING_STRIDE,
            start + LISTING_STRIDE <= b@.len(),
            len == b@.len(),
            field == b@.subrange(start as int, start + LISTING_STRIDE),
            run == field.take(n as int),
            out@ == run.subrange(a as int, k as int),
        decreases z - k,
    {
        out.push(b[start + k]);
        k = k + 1;
        assert(out@ =~= run.subrange(a as int, k as int));
    }
    Some(out)
}

/// Lists what look like sender names in an aggregate table region: the
/// printable run at the start of each of the first 256-byte fields, for
/// diagnostics when a sender cannot be found.
pub fn list_sender_names(region: &[u8]) -> (r: Vec<Vec<u8>>)
    ensures
        r@.map_values(|v: Vec<u8>| v@) == listed_names(region@, listing_slots(region@)),
{
    let whole = region.len() / LISTING_STRIDE;
    let count = if whole < LISTING_SLOTS {
        whole
    } else {
        LISTING_SLOTS
    };
    let mut out: Vec<Vec<u8>> = Vec::new();
    let mut k: usize = 0;
    assert(out@.map_values(|v: Vec<u8>| v@) =~= listed_names(region@, 0));
    while k < count
        invariant
            k <= count,
            count == listing_slots(region@),
            count * LISTING_STRIDE <= region@.len(),
            out@.map_values(|v: Vec<u8>| v@) == listed_names(region@, k as int),
        decreases count - k,
    {
        assert((k + 1) * LISTING_STRIDE <= count * LISTING_STRIDE) by (nonlinear_arith)
            requires
                k + 1 <= count,
        ;
        let start = k * LISTING_STRIDE;
        let ghost before = out@;
        match listed_name_at(region, start) {
            Some(name) => {
                let ghost listed = name@;
                out.push(name);
                assert(out@.map_values(|v: Vec<u8>| v@) =~= before.map_values(|v: Vec<u8>| v@).push(
                    listed,
                ));
            },
            None => {},
        }
        k = k + 1;
    }
    out
}

} // verus!
