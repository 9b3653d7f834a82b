//! Memory units: byte-addressable buffers, scoped access to the active one,
//! and the little-endian layout of the values kept in them.

use vstd::prelude::*;
use vstd::slice::slice_subrange;
use memmap2::MmapMut;
use std::sync::Arc;
use std::sync::RwLock;
use std::sync::RwLockReadGuard;
use std::sync::RwLockWriteGuard;

verus! {

/// `std::sync::RwLock`, the lock around a shared memory unit. Nothing is
/// known of what it guards: other workers write to it.
#[verifier::external_type_specification]
#[verifier::external_body]
#[verifier::reject_recursive_types(T)]
pub struct ExRwLock<T: ?Sized>(RwLock<T>);

/// `std::sync::RwLockReadGuard`, shared access to what a lock guards.
#[verifier::external_type_specification]
#[verifier::external_body]
#[verifier::reject_recursive_types(T)]
pub struct ExRwLockReadGuard<'a, T: ?Sized>(RwLockReadGuard<'a, T>);

/// `std::sync::RwLockWriteGuard`, exclusive access to what a lock guards.
#[verifier::external_type_specification]
#[verifier::external_body]
#[verifier::reject_recursive_types(T)]
pub struct ExRwLockWriteGuard<'a, T: ?Sized + 'a>(RwLockWriteGuard<'a, T>);

/// `RwLock::read`: waits for shared access. A lock that a panicking writer
/// left poisoned is read all the same. Nothing is claimed of the guard.
#[verifier::external_body]
fn acquire_read<'a, M>(lock: &'a RwLock<M>) -> RwLockReadGuard<'a, M> {
    match lock.read() {
        Ok(guard) => guard,
        Err(poisoned) => poisoned.into_inner(),
    }
}

/// `Deref::deref` of a read guard: the unit behind it. Nothing is claimed of it.
#[verifier::external_body]
fn guarded<'a, 'b, M>(guard: &'b RwLockReadGuard<'a, M>) -> &'b M {
    &**guard
}

/// `RwLock::write`: waits for exclusive access, poisoned or not. Nothing is
/// claimed of the guard.
#[verifier::external_body]
fn acquire_write<'a, M>(lock: &'a RwLock<M>) -> RwLockWriteGuard<'a, M> {
    match lock.write() {
        Ok(guard) => guard,
        Err(poisoned) => poisoned.into_inner(),
    }
}

/// `DerefMut::deref_mut` of a write guard: the unit behind it. Nothing is
/// claimed of it.
#[verifier::external_body]
fn guarded_mut<'a, 'b, M>(guard: &'b mut RwLockWriteGuard<'a, M>) -> &'b mut M {
    &mut **guard
}

/// `memmap2::MmapMut`, a file or an anonymous region mapped into memory.
/// Nothing is known of what it holds: a mapped file may change under it.
#[verifier::external_type_specification]
#[verifier::external_body]
pub struct ExMmapMut(MmapMut);

/// How many bytes a mapping spans: the length of the slice that
/// `memmap2::MmapMut` dereferences to. It is set when the region is mapped
/// and no safe call changes it.
pub uninterp spec fn mapped_len(map: MmapMut) -> nat;

/// `Deref::deref` of `memmap2::MmapMut`: the mapped bytes. They are as
/// many as the mapping spans; nothing is claimed of what they hold.
#[verifier::external_body]
fn mapped(map: &MmapMut) -> (bytes: &[u8])
    ensures
        bytes@.len() == mapped_len(*map),
{
    &**map
}

/// `DerefMut::deref_mut` of `memmap2::MmapMut`: the mapped bytes, to be
/// changed in place. They are as many as the mapping spans, which a change
/// of bytes leaves as it is; nothing is claimed of what they hold.
#[verifier::external_body]
fn mapped_mut(map: &mut MmapMut) -> (bytes: &mut [u8])
    ensures
        bytes@.len() == mapped_len(*old(map)),
        mapped_len(*final(map)) == mapped_len(*old(map)),
{
    &mut **map
}

/// `bytes` with `data` copied over it from `offset` on.
pub open spec fn overwrite(bytes: Seq<u8>, offset: int, data: Seq<u8>) -> Seq<u8> {
    Seq::new(
        bytes.len(),
        |i: int|
            if offset <= i < offset + data.len() {
                data[i - offset]
            } else {
                bytes[i]
            },
    )
}

/// A byte-addressable buffer of fixed size.
///
/// An access that does not lie within the buffer is refused and changes
/// nothing; it never grows the buffer.
pub trait Memory: Send + Sync {
    /// Copies `data` to `offset`. Returns whether the range lies within the buffer.
    fn write(&mut self, offset: usize, data: &[u8]) -> (done: bool);

    /// The `size` bytes at `offset`, or `None` where the range does not lie
    /// within the buffer.
    fn read(&self, offset: usize, size: usize) -> (out: Option<&[u8]>);
}

/// Whether `bytes` can be what a read of `size` bytes at `address` of
/// `unit` comes to: a copy of what [`Memory::read`] returned there, which
/// is all that is known of a unit of an unknown kind.
pub open spec fn read_gives<M: Memory>(
    unit: &M,
    address: usize,
    size: usize,
    bytes: Option<Seq<u8>>,
) -> bool {
    exists|found: Option<&[u8]>| #[trigger]
        call_ensures(M::read, (unit, address, size), found) && bytes == (match found {
            Some(part) => Some(part@),
            None => None,
        })
}

/// Whether `done` can be what a write of `data` at `address` comes to:
/// what [`Memory::write`] returned for them on some unit.
pub open spec fn write_gives<M: Memory>(address: usize, data: Seq<u8>, done: bool) -> bool {
    exists|unit: &mut M, bytes: &[u8]|
        bytes@ == data && #[trigger] call_ensures(M::write, (unit, address, bytes), done)
}

/// Copies `data` into `buffer` at `offset`, if the range lies within it.
/// Returns whether it does.
pub fn write_bytes(buffer: &mut [u8], offset: usize, data: &[u8]) -> (done: bool)
    ensures
        done <==> offset + data@.len() <= old(buffer)@.len(),
        done ==> final(buffer)@ == overwrite(old(buffer)@, offset as int, data@),
        !done ==> final(buffer)@ == old(buffer)@,
{
    let total = buffer.len();
    if data.len() > total || offset > total - data.len() {
        return false;
    }
    let mut i: usize = 0;
    while i < data.len()
        invariant
            total == buffer@.len() == old(buffer)@.len(),
            i <= data@.len() == data.len(),
            offset + data@.len() <= total,
            forall|k: int|
                0 <= k < total ==> buffer@[k] == (if offset <= k < offset + i {
                    data@[k - offset]
                } else {
                    old(buffer)@[k]
                }),
        decreases data@.len() - i,
    {
        buffer[offset + i] = data[i];
        i += 1;
    }
    assert(buffer@ =~= overwrite(old(buffer)@, offset as int, data@));
    true
}

/// The `size` bytes of `buffer` at `offset`, if the range lies within it.
pub fn read_bytes(buffer: &[u8], offset: usize, size: usize) -> (out: Option<&[u8]>)
    ensures
        out is Some <==> offset + size <= buffer@.len(),
        out matches Some(bytes) ==> bytes@ == buffer@.subrange(offset as int, offset + size),
{
    let total = buffer.len();
    if size > total || offset > total - size {
        return None;
    }
    Some(slice_subrange(buffer, offset, offset + size))
}

impl Memory for Vec<u8> {
    fn write(&mut self, offset: usize, data: &[u8]) -> (done: bool)
        ensures
            done <==> offset + data@.len() <= old(self)@.len(),
            done ==> final(self)@ == overwrite(old(self)@, offset as int, data@),
            !done ==> final(self)@ == old(self)@,
    {
        write_bytes(self.as_mut_slice(), offset, data)
    }

    fn read(&self, offset: usize, size: usize) -> (out: Option<&[u8]>)
        ensures
            out is Some <==> offset + size <= self@.len(),
            out matches Some(bytes) ==> bytes@ == self@.subrange(offset as int, offset + size),
    {
        read_bytes(self.as_slice(), offset, size)
    }
}

/// A mapped region is a memory unit as large as the mapping. What it
/// holds is not known: a mapped file may change under it.
impl Memory for MmapMut {
    fn write(&mut self, offset: usize, data: &[u8]) -> (done: bool)
        ensures
            done <==> offset + data@.len() <= mapped_len(*old(self)),
            mapped_len(*final(self)) == mapped_len(*old(self)),
    {
        write_bytes(mapped_mut(self), offset, data)
    }

    fn read(&self, offset: usize, size: usize) -> (out: Option<&[u8]>)
        ensures
            out is Some <==> offset + size <= mapped_len(*self),
            out matches Some(bytes) ==> bytes@.len() == size,
    {
        read_bytes(mapped(self), offset, size)
    }
}

/// Access to the active memory of a process: its private buffer, borrowed,
/// or a shared unit behind its lock.
#[verifier::reject_recursive_types(M)]
pub enum MemoryHandler<'a, M: Memory> {
    MemoryRef(&'a mut M),
    MemoryLock(Arc<RwLock<M>>),
}

impl<'a, M: Memory> MemoryHandler<'a, M> {
    /// Runs `effect` on the memory, read-only. A shared unit is read-locked
    /// for the duration of the call.
    ///
    /// What `effect` returns is what it yields on the private buffer; of a
    /// shared unit only that it is what `effect` yields on some content.
    pub fn memory<T, F: FnOnce(&M) -> T>(&self, effect: F) -> (out: T)
        requires
            self matches MemoryHandler::MemoryRef(unit) ==> effect.requires((&**unit,)),
            self is MemoryLock ==> forall|unit: &M| effect.requires((unit,)),
        ensures
            self matches MemoryHandler::MemoryRef(unit) ==> effect.ensures((&**unit,), out),
            self is MemoryLock ==> exists|unit: &M| effect.ensures((unit,), out),
    {
        match self {
            MemoryHandler::MemoryRef(memory) => effect(&**memory),
            MemoryHandler::MemoryLock(lock) => {
                let guard = acquire_read(&**lock);
                effect(guarded(&guard))
            },
        }
    }

    /// Runs `effect` on the memory with the right to change it. A shared unit
    /// is write-locked for the duration of the call.
    pub fn memory_mut<T, F: FnOnce(&mut M) -> T>(&mut self, effect: F) -> (out: T)
        requires
            forall|unit: &mut M| effect.requires((unit,)),
        ensures
            *old(self) is MemoryLock <==> *final(self) is MemoryLock,
            exists|unit: &mut M| effect.ensures((unit,), out),
            *old(self) matches MemoryHandler::MemoryRef(before) ==> *final(self) matches MemoryHandler::MemoryRef(after)
                && *final(after) == *final(before) && exists|unit: &mut M| *unit == *before && *final(unit) == *after && effect.ensures((unit,), out),
    {
        match self {
            MemoryHandler::MemoryRef(memory) => effect(&mut **memory),
            MemoryHandler::MemoryLock(lock) => {
                let mut guard = acquire_write(&**lock);
                effect(guarded_mut(&mut guard))
            },
        }
    }
}

/// Number of values that `size` bytes tell apart: 256 to the power `size`.
pub open spec fn span(size: nat) -> nat
    decreases size,
{
    if size == 0 {
        1
    } else {
        256 * span((size - 1) as nat)
    }
}

/// The `size` low bytes of `value`, the least significant first.
pub open spec fn le_bytes(value: nat, size: nat) -> Seq<u8>
    decreases size,
{
    if size == 0 {
        Seq::empty()
    } else {
        seq![(value % 256) as u8] + le_bytes(value / 256, (size - 1) as nat)
    }
}

/// The number that `bytes` spell, the least significant byte first.
pub open spec fn le_value(bytes: Seq<u8>) -> nat
    decreases bytes.len(),
{
    if bytes.len() == 0 {
        0
    } else {
        bytes[0] as nat + 256 * le_value(bytes.drop_first())
    }
}

/// `value` reduced to `size` bytes and read as a signed number: the sign
/// extension of `value` modulo [`span`]`(size)`.
pub open spec fn wrap_signed(value: int, size: nat) -> int {
    let low = value % (span(size) as int);
    if 2 * low >= span(size) {
        low - span(size)
    } else {
        low
    }
}

/// The two's complement image of `value` in 64 bits.
pub open spec fn twos(value: i64) -> u64 {
    if value >= 0 {
        value as u64
    } else {
        (value + 0x1_0000_0000_0000_0000) as u64
    }
}

/// The signed number whose two's complement image is `bits`.
pub open spec fn untwos(bits: u64) -> i64 {
    if bits < 0x8000_0000_0000_0000 {
        bits as i64
    } else {
        (bits - 0x1_0000_0000_0000_0000) as i64
    }
}

/// The spans of one to eight bytes.
pub proof fn lemma_span_values()
    ensures
        span(0) == 1,
        span(1) == 0x100,
        span(2) == 0x1_0000,
        span(3) == 0x100_0000,
        span(4) == 0x1_0000_0000,
        span(5) == 0x100_0000_0000,
        span(6) == 0x1_0000_0000_0000,
        span(7) == 0x100_0000_0000_0000,
        span(8) == 0x1_0000_0000_0000_0000,
{
    reveal_with_fuel(span, 10);
}

/// `le_bytes` yields as many bytes as asked for.
pub proof fn lemma_le_bytes_len(value: nat, size: nat)
    ensures
        le_bytes(value, size).len() == size,
    decreases size,
{
    if size > 0 {
        lemma_le_bytes_len(value / 256, (size - 1) as nat);
    }
}

/// Bytes spell a number below the span of their count.
pub proof fn lemma_le_value_bound(bytes: Seq<u8>)
    ensures
        le_value(bytes) < span(bytes.len()),
    decreases bytes.len(),
{
    if bytes.len() > 0 {
        lemma_le_value_bound(bytes.drop_first());
    }
}

/// Reading back the `size` low bytes of `value` gives `value` modulo the span.
pub proof fn lemma_le_round_trip(value: nat, size: nat)
    ensures
        le_value(le_bytes(value, size)) == value % span(size),
    decreases size,
{
    if size > 0 {
        let rest = le_bytes(value / 256, (size - 1) as nat);
        let all = le_bytes(value, size);
        lemma_le_round_trip(value / 256, (size - 1) as nat);
        assert(all.drop_first() =~= rest);
        lemma_span_positive((size - 1) as nat);
        vstd::arithmetic::div_mod::lemma_mod_breakdown(
            value as int,
            256,
            span((size - 1) as nat) as int,
        );
    }
}

/// A span is never zero.
pub proof fn lemma_span_positive(size: nat)
    ensures
        span(size) > 0,
    decreases size,
{
    if size > 0 {
        lemma_span_positive((size - 1) as nat);
    }
}

/// Writing a signed number in one, two, four or eight bytes and reading it
/// back gives its sign extension from that width.
pub proof fn lemma_int_round_trip(value: i64, size: nat)
    requires
        size == 1 || size == 2 || size == 4 || size == 8,
    ensures
        wrap_signed(le_value(le_bytes(twos(value) as nat, size)) as int, size) == wrap_signed(
            value as int,
            size,
        ),
        -(span(size) as int) <= 2 * wrap_signed(value as int, size) < span(size),
{
    lemma_span_values();
    lemma_le_round_trip(twos(value) as nat, size);
    let modulus = span(size) as int;
    let image = twos(value) as int;
    assert(image % modulus == (value as int) % modulus) by {
        if value < 0 {
            vstd::arithmetic::div_mod::lemma_mod_multiples_vanish(
                0x1_0000_0000_0000_0000int / modulus,
                value as int,
                modulus,
            );
        }
    }
    vstd::arithmetic::div_mod::lemma_mod_twice(image, modulus);
    vstd::arithmetic::div_mod::lemma_mod_bound(value as int, modulus);
}

/// The `size` low bytes of `bits`, the least significant first.
pub fn encode(bits: u64, size: usize) -> (bytes: Vec<u8>)
    ensures
        bytes@ == le_bytes(bits as nat, size as nat),
{
    let mut bytes: Vec<u8> = Vec::new();
    let mut rest = bits;
    let mut i: usize = 0;
    while i < size
        invariant
            i <= size,
            bytes@.len() == i,
            bytes@ + le_bytes(rest as nat, (size - i) as nat) == le_bytes(bits as nat, size as nat),
        decreases size - i,
    {
        let ghost before = bytes@;
        bytes.push((rest % 256) as u8);
        assert(bytes@ + le_bytes((rest / 256) as nat, (size - i - 1) as nat) =~= before + le_bytes(
            rest as nat,
            (size - i) as nat,
        ));
        rest = rest / 256;
        i += 1;
    }
    assert(bytes@ + le_bytes(rest as nat, 0) =~= bytes@);
    bytes
}

/// The number that at most eight bytes spell, the least significant first.
pub fn decode(bytes: &[u8]) -> (value: u64)
    requires
        bytes@.len() <= 8,
    ensures
        value == le_value(bytes@),
{
    let mut value: u64 = 0;
    let mut i: usize = bytes.len();
    while i > 0
        invariant
            i <= bytes@.len() <= 8,
            value == le_value(bytes@.subrange(i as int, bytes@.len() as int)),
        decreases i,
    {
        let ghost upper = bytes@.subrange(i as int, bytes@.len() as int);
        let ghost lower = bytes@.subrange(i - 1, bytes@.len() as int);
        proof {
            assert(lower.drop_first() =~= upper);
            lemma_le_value_bound(upper);
            lemma_le_value_bound(lower);
            lemma_span_values();
            lemma_span_monotonic(lower.len(), 8);
        }
        i -= 1;
        value = value * 256 + bytes[i] as u64;
    }
    assert(bytes@.subrange(0, bytes@.len() as int) =~= bytes@);
    value
}

/// More bytes never tell fewer values apart.
pub proof fn lemma_span_monotonic(small: nat, large: nat)
    requires
        small <= large,
    ensures
        span(small) <= span(large),
    decreases large,
{
    if small < large {
        lemma_span_monotonic(small, (large - 1) as nat);
    }
}

/// Reads the `size` low bytes of `value` as a signed number, see [`wrap_signed`].
pub fn sign_extend(value: u64, size: usize) -> (signed: i64)
    requires
        1 <= size <= 8,
    ensures
        signed == wrap_signed(value as int, size as nat),
{
    proof {
        lemma_span_values();
    }
    if size == 8 {
        proof {
            vstd::arithmetic::div_mod::lemma_small_mod(value as nat, span(8));
        }
        if value >= 0x8000_0000_0000_0000 {
            (value - 0x8000_0000_0000_0000) as i64 + i64::MIN
        } else {
            value as i64
        }
    } else {
        let limit: u64 = if size == 1 {
            0x100
        } else if size == 2 {
            0x1_0000
        } else if size == 3 {
            0x100_0000
        } else if size == 4 {
            0x1_0000_0000
        } else if size == 5 {
            0x100_0000_0000
        } else if size == 6 {
            0x1_0000_0000_0000
        } else {
            0x100_0000_0000_0000
        };
        let low = value % limit;
        if low >= limit / 2 {
            low as i64 - limit as i64
        } else {
            low as i64
        }
    }
}

/// The two's complement image of `value`, see [`twos`].
pub fn to_bits(value: i64) -> (bits: u64)
    ensures
        bits == twos(value),
        untwos(bits) == value,
{
    if value >= 0 {
        value as u64
    } else {
        (value - i64::MIN) as u64 + 0x8000_0000_0000_0000
    }
}

/// The signed number with the two's complement image `bits`, see [`untwos`].
pub fn from_bits(bits: u64) -> (value: i64)
    ensures
        value == untwos(bits),
        twos(value) == bits,
{
    if bits < 0x8000_0000_0000_0000 {
        bits as i64
    } else {
        (bits - 0x8000_0000_0000_0000) as i64 + i64::MIN
    }
}

} // verus!
