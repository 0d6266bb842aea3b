//! The pages of the flight log. A page starts with a mark and goes on with
//! samples, each with the tag of its sensor before it and its numbers as
//! little-endian bytes. It is collected in a list of the size of one page of
//! the flash chip.

use crate::config_format::frozen::{
    appended, appended_all, lemma_appended_all_is_prefix, lemma_appended_all_twice,
};
use vstd::prelude::*;

verus! {

/// The size of a page of the flash chip, with the bytes that hold its error
/// correction code.
pub const PAGE_SIZE_WITH_ECC: usize = 2112;

/// The room that has to be left on a page for the sampling to go on.
pub const PAGE_MARGIN: usize = 8;

/// The tag of a sample of the barometer.
pub const BAROMETER_TAG: u8 = 0x42;

/// The tag of a sample of the accelerometer.
pub const ACCELEROMETER_TAG: u8 = 0x41;

/// The tag of a sample of the gyroscope.
pub const GYROSCOPE_TAG: u8 = 0x47;

/// The bytes that a page holds, first to last.
pub uninterp spec fn page_bytes(page: heapless::Vec<u8, PAGE_SIZE_WITH_ECC>) -> Seq<u8>;

/// `heapless::Vec::new` for a page: a page that holds nothing.
#[verifier::external_body]
fn empty_page() -> (page: heapless::Vec<u8, PAGE_SIZE_WITH_ECC>)
    ensures
        page_bytes(page) == Seq::<u8>::empty(),
{
    heapless::Vec::new()
}

/// `heapless::Vec::push` on a page: the byte is appended if the page holds
/// fewer bytes than it has room for, and handed back if the page is full,
/// which leaves the page as it is.
#[verifier::external_body]
fn push_byte(page: &mut heapless::Vec<u8, PAGE_SIZE_WITH_ECC>, byte: u8) -> (res: Result<(), u8>)
    ensures
        page_bytes(*final(page)) == appended(page_bytes(*old(page)), PAGE_SIZE_WITH_ECC as nat, byte),
        page_bytes(*old(page)).len() < PAGE_SIZE_WITH_ECC ==> res is Ok,
        page_bytes(*old(page)).len() >= PAGE_SIZE_WITH_ECC ==> res is Err && res->Err_0 == byte,
{
    page.push(byte)
}

/// `heapless::Vec::as_slice` on a page: the slice of the bytes held, first to
/// last, which are never more than the page has room for.
#[verifier::external_body]
fn bytes_of(page: &heapless::Vec<u8, PAGE_SIZE_WITH_ECC>) -> (bytes: &[u8])
    ensures
        bytes@ == page_bytes(*page),
        bytes@.len() <= PAGE_SIZE_WITH_ECC,
{
    page.as_slice()
}

/// The mark that every page starts with.
pub open spec fn page_mark() -> Seq<u8> {
    seq![0x4eu8, 0x4fu8, 0x56u8, 0x41u8]
}

/// The number from 0 up to `modulus` that has the bits of `val` in two's
/// complement.
pub open spec fn unsigned(val: int, modulus: int) -> int {
    if val < 0 {
        val + modulus
    } else {
        val
    }
}

/// The two bytes of `val`, the low one first.
pub open spec fn le_bytes_i16(val: i16) -> Seq<u8> {
    let bits = unsigned(val as int, 0x1_0000);
    seq![(bits % 0x100) as u8, (bits / 0x100) as u8]
}

/// The four bytes of `val`, the lowest first.
pub open spec fn le_bytes_i32(val: i32) -> Seq<u8> {
    let bits = unsigned(val as int, 0x1_0000_0000);
    seq![
        (bits % 0x100) as u8,
        (bits / 0x100 % 0x100) as u8,
        (bits / 0x1_0000 % 0x100) as u8,
        (bits / 0x100_0000) as u8,
    ]
}

/// A sample of the barometer as it stands on a page: the tag twice, then the
/// temperature and the pressure.
pub open spec fn barometer_record(temperature: i32, pressure: i32) -> Seq<u8> {
    seq![BAROMETER_TAG, BAROMETER_TAG] + le_bytes_i32(temperature) + le_bytes_i32(pressure)
}

/// A sample of three axes as it stands on a page: the tag twice, then the
/// three axes in their order.
pub open spec fn axes_record(tag: u8, sample: [i16; 3]) -> Seq<u8> {
    seq![tag, tag] + le_bytes_i16(sample[0]) + le_bytes_i16(sample[1]) + le_bytes_i16(sample[2])
}

/// What a page holds after `bytes` were written to it: the bytes that it has
/// no room for are left out.
pub open spec fn written(page: Seq<u8>, bytes: Seq<u8>) -> Seq<u8> {
    appended_all(page, PAGE_SIZE_WITH_ECC as nat, bytes)
}

/// Appends `bytes` to the page, as many as it has room for.
fn write_all(page: &mut heapless::Vec<u8, PAGE_SIZE_WITH_ECC>, bytes: &[u8])
    ensures
        page_bytes(*final(page)) == written(page_bytes(*old(page)), bytes@),
{
    let mut i: usize = 0;
    assert(bytes@.take(0).len() == 0);
    while i < bytes.len()
        invariant
            i <= bytes@.len(),
            page_bytes(*page) == written(page_bytes(*old(page)), bytes@.take(i as int)),
        decreases bytes@.len() - i,
    {
        // A byte that does not fit is left out.
        let _ = push_byte(page, bytes[i]);
        proof {
            assert(bytes@.take(i + 1).drop_last() =~= bytes@.take(i as int));
        }
        i += 1;
    }
    assert(bytes@.take(i as int) =~= bytes@);
}

fn bytes_i16(val: i16) -> (bytes: [u8; 2])
    ensures
        bytes@ == le_bytes_i16(val),
{
    let bits: u32 = if val < 0 {
        (val as i32 + 0x1_0000) as u32
    } else {
        val as u32
    };
    let bytes: [u8; 2] = [(bits % 0x100) as u8, (bits / 0x100) as u8];
    assert(bytes@ =~= le_bytes_i16(val));
    bytes
}

fn bytes_i32(val: i32) -> (bytes: [u8; 4])
    ensures
        bytes@ == le_bytes_i32(val),
{
    let bits: u64 = if val < 0 {
        (val as i64 + 0x1_0000_0000) as u64
    } else {
        val as u64
    };
    let bytes: [u8; 4] = [
        (bits % 0x100) as u8,
        (bits / 0x100 % 0x100) as u8,
        (bits / 0x1_0000 % 0x100) as u8,
        (bits / 0x100_0000) as u8,
    ];
    assert(bytes@ =~= le_bytes_i32(val));
    bytes
}

/// A page that holds the mark and nothing else.
pub fn new_page() -> (page: heapless::Vec<u8, PAGE_SIZE_WITH_ECC>)
    ensures
        page_bytes(page) == page_mark(),
{
    let mut page = empty_page();
    let mark: [u8; 4] = [0x4e, 0x4f, 0x56, 0x41];
    write_all(&mut page, mark.as_slice());
    proof {
        assert(mark@ =~= page_mark());
        lemma_appended_all_is_prefix(Seq::<u8>::empty(), PAGE_SIZE_WITH_ECC as nat, page_mark());
        assert(Seq::<u8>::empty() + page_mark() =~= page_mark());
    }
    page
}

/// Whether the page has to be flushed before the next sample: fewer than
/// [`PAGE_MARGIN`] bytes of room are left on it.
pub fn is_nearly_full(page: &heapless::Vec<u8, PAGE_SIZE_WITH_ECC>) -> (full: bool)
    ensures
        full == (page_bytes(*page).len() > PAGE_SIZE_WITH_ECC - PAGE_MARGIN),
{
    bytes_of(page).len() > PAGE_SIZE_WITH_ECC - PAGE_MARGIN
}

/// Appends the two bytes of `val` to the page, the low one first. A byte that
/// the page has no room for is left out.
pub fn write_i16(buf: &mut heapless::Vec<u8, PAGE_SIZE_WITH_ECC>, val: i16)
    ensures
        page_bytes(*final(buf)) == written(page_bytes(*old(buf)), le_bytes_i16(val)),
{
    let bytes = bytes_i16(val);
    write_all(buf, bytes.as_slice());
}

/// Appends the four bytes of `val` to the page, the lowest first. A byte that
/// the page has no room for is left out.
pub fn write_i32(buf: &mut heapless::Vec<u8, PAGE_SIZE_WITH_ECC>, val: i32)
    ensures
        page_bytes(*final(buf)) == written(page_bytes(*old(buf)), le_bytes_i32(val)),
{
    let bytes = bytes_i32(val);
    write_all(buf, bytes.as_slice());
}

/// Appends a sample of the barometer to the page.
pub fn write_barometer_sample(
    page: &mut heapless::Vec<u8, PAGE_SIZE_WITH_ECC>,
    temperature: i32,
    pressure: i32,
)
    ensures
        page_bytes(*final(page)) == written(
            page_bytes(*old(page)),
            barometer_record(temperature, pressure),
        ),
{
    let tag: [u8; 2] = [BAROMETER_TAG, BAROMETER_TAG];
    write_all(page, tag.as_slice());
    write_i32(page, temperature);
    write_i32(page, pressure);
    proof {
        let start = page_bytes(*old(page));
        let room = PAGE_SIZE_WITH_ECC as nat;
        assert(tag@ =~= seq![BAROMETER_TAG, BAROMETER_TAG]);
        lemma_appended_all_twice(start, room, tag@, le_bytes_i32(temperature));
        lemma_appended_all_twice(
            start,
            room,
            tag@ + le_bytes_i32(temperature),
            le_bytes_i32(pressure),
        );
    }
}

/// Appends a sample of the three axes of the accelerometer to the page.
pub fn write_accelerometer_sample(
    page: &mut heapless::Vec<u8, PAGE_SIZE_WITH_ECC>,
    sample: [i16; 3],
)
    ensures
        page_bytes(*final(page)) == written(
            page_bytes(*old(page)),
            axes_record(ACCELEROMETER_TAG, sample),
        ),
{
    write_axes(page, ACCELEROMETER_TAG, sample);
}

/// Appends a sample of the three axes of the gyroscope to the page.
pub fn write_gyroscope_sample(page: &mut heapless::Vec<u8, PAGE_SIZE_WITH_ECC>, sample: [i16; 3])
    ensures
        page_bytes(*final(page)) == written(
            page_bytes(*old(page)),
            axes_record(GYROSCOPE_TAG, sample),
        ),
{
    write_axes(page, GYROSCOPE_TAG, sample);
}

fn write_axes(page: &mut heapless::Vec<u8, PAGE_SIZE_WITH_ECC>, tag: u8, sample: [i16; 3])
    ensures
        page_bytes(*final(page)) == written(page_bytes(*old(page)), axes_record(tag, sample)),
{
    let tags: [u8; 2] = [tag, tag];
    write_all(page, tags.as_slice());
    write_i16(page, sample[0]);
    write_i16(page, sample[1]);
    write_i16(page, sample[2]);
    proof {
        let start = page_bytes(*old(page));
        let room = PAGE_SIZE_WITH_ECC as nat;
        let x = le_bytes_i16(sample[0]);
        let y = le_bytes_i16(sample[1]);
        let z = le_bytes_i16(sample[2]);
        assert(tags@ =~= seq![tag, tag]);
        lemma_appended_all_twice(start, room, tags@, x);
        lemma_appended_all_twice(start, room, tags@ + x, y);
        lemma_appended_all_twice(start, room, tags@ + x + y, z);
    }
}

/// Whether every byte of `bytes` is as the flash chip leaves it when it
/// erases a page: all bits set.
pub fn is_erased(bytes: &[u8]) -> (erased: bool)
    ensures
        erased == (forall|i: int| 0 <= i < bytes@.len() ==> bytes@[i] == 0xff),
{
    let mut erased = true;
    let mut i: usize = 0;
    while i < bytes.len()
        invariant
            i <= bytes@.len(),
            erased == (forall|k: int| 0 <= k < i ==> bytes@[k] == 0xff),
        decreases bytes@.len() - i,
    {
        if bytes[i] != 0xFF {
            erased = false;
        }
        i += 1;
    }
    erased
}

} // verus!
