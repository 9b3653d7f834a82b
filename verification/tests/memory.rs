use std::sync::{Arc, RwLock};

use memmap2::MmapMut;

use avmir::vm::machine::{LiveCount, MachineProcessSupervisor};
use avmir::vm::memory::{decode, encode, from_bits, read_bytes, sign_extend, to_bits, write_bytes, Memory, MemoryHandler};

#[test]
fn a_vector_is_a_memory_unit() {
    let mut unit = vec![0u8; 8];
    assert!(unit.write(2, &[1, 2, 3]));
    assert_eq!(unit, vec![0, 0, 1, 2, 3, 0, 0, 0]);
    assert_eq!(unit.read(3, 2), Some(&[2u8, 3][..]));
    assert_eq!(unit.read(0, 8), Some(&[0u8, 0, 1, 2, 3, 0, 0, 0][..]));
    assert_eq!(unit.read(8, 0), Some(&[][..]));
}

#[test]
fn an_access_out_of_range_is_refused() {
    let mut unit = vec![7u8; 4];
    assert!(!unit.write(2, &[1, 2, 3]));
    assert!(!unit.write(5, &[]));
    assert!(!unit.write(usize::MAX, &[1, 2]));
    assert_eq!(unit, vec![7; 4]);
    assert_eq!(unit.read(1, 4), None);
    assert_eq!(unit.read(5, 0), None);
    assert_eq!(unit.read(usize::MAX, 2), None);
    assert_eq!(unit.read(2, usize::MAX), None);
    assert!(unit.write(4, &[]));
}

#[test]
fn a_handler_reaches_the_private_buffer() {
    let mut unit = vec![0u8; 4];
    let mut handler = MemoryHandler::MemoryRef(&mut unit);
    assert!(handler.memory_mut(|m| m.write(1, &[5, 6])));
    assert_eq!(handler.memory(|m| m.read(0, 4).map(|b| b.to_vec())), Some(vec![0, 5, 6, 0]));
    assert_eq!(unit, vec![0, 5, 6, 0]);
}

#[test]
fn a_handler_reaches_a_shared_unit_through_its_lock() {
    let shared = Arc::new(RwLock::new(vec![0u8; 4]));
    let mut handler: MemoryHandler<Vec<u8>> = MemoryHandler::MemoryLock(shared.clone());
    assert!(handler.memory_mut(|m| m.write(0, &[9])));
    assert_eq!(handler.memory(|m| m.read(0, 1).map(|b| b.to_vec())), Some(vec![9]));
    assert_eq!(*shared.read().unwrap(), vec![9, 0, 0, 0]);
    assert!(shared.try_write().is_ok());
}

#[test]
fn the_supervisor_selects_the_active_memory() {
    let first = Arc::new(RwLock::new(vec![1u8; 2]));
    let second = Arc::new(RwLock::new(vec![2u8; 2]));
    let mut supervisor = MachineProcessSupervisor::new(vec![first.clone(), second.clone()], vec![0u8; 2]);
    let peek = |s: &mut MachineProcessSupervisor<Vec<u8>>| s.get_memory().memory(|m| m.read(0, 1).map(|b| b[0]));
    assert_eq!(peek(&mut supervisor), Some(0));
    assert!(supervisor.set_memory(Some(1)));
    assert_eq!(peek(&mut supervisor), Some(2));
    assert!(!supervisor.set_memory(Some(2)));
    assert_eq!(peek(&mut supervisor), Some(2));
    assert!(supervisor.set_memory(Some(0)));
    assert_eq!(peek(&mut supervisor), Some(1));
    assert!(supervisor.set_memory(None));
    assert_eq!(peek(&mut supervisor), Some(0));
    assert!(supervisor.get_memory().memory_mut(|m| m.write(0, &[4])));
    assert_eq!(peek(&mut supervisor), Some(4));
    assert_eq!(first.read().unwrap()[0], 1);
}

#[test]
fn bytes_go_least_significant_first() {
    assert_eq!(encode(0x1122334455667788, 8), 0x1122334455667788u64.to_le_bytes().to_vec());
    assert_eq!(encode(0x1122334455667788, 4), vec![0x88, 0x77, 0x66, 0x55]);
    assert_eq!(encode(0x1122334455667788, 2), vec![0x88, 0x77]);
    assert_eq!(encode(0x1122334455667788, 1), vec![0x88]);
    assert_eq!(encode(5, 0), Vec::<u8>::new());
    assert_eq!(encode(1, 10), vec![1, 0, 0, 0, 0, 0, 0, 0, 0, 0]);
    assert_eq!(decode(&[0x88, 0x77, 0x66, 0x55]), 0x55667788);
    assert_eq!(decode(&[]), 0);
    assert_eq!(decode(&[0xFF; 8]), u64::MAX);
}

#[test]
fn narrow_numbers_are_sign_extended() {
    assert_eq!(sign_extend(0xFF, 1), -1);
    assert_eq!(sign_extend(0x7F, 1), 127);
    assert_eq!(sign_extend(0x80, 1), -128);
    assert_eq!(sign_extend(0x8000, 2), i16::MIN as i64);
    assert_eq!(sign_extend(0xFFFF_FFFF, 4), -1);
    assert_eq!(sign_extend(0x7FFF_FFFF, 4), i32::MAX as i64);
    assert_eq!(sign_extend(0x80_0000, 3), -8388608);
    assert_eq!(sign_extend(u64::MAX, 8), -1);
    assert_eq!(sign_extend(1 << 63, 8), i64::MIN);
    assert_eq!(sign_extend(0x1234_56FF, 1), -1);
    assert_eq!(sign_extend(0x1_0000_7FFF, 2), 32767);
    for value in [0i64, 1, -1, 127, -128, 255, 256, 65535, -65536, i32::MIN as i64, i64::MAX, i64::MIN] {
        assert_eq!(sign_extend(decode(&encode(to_bits(value), 1)), 1), value as i8 as i64);
        assert_eq!(sign_extend(decode(&encode(to_bits(value), 2)), 2), value as i16 as i64);
        assert_eq!(sign_extend(decode(&encode(to_bits(value), 4)), 4), value as i32 as i64);
        assert_eq!(sign_extend(decode(&encode(to_bits(value), 8)), 8), value);
    }
}

#[test]
fn two_s_complement_images() {
    assert_eq!(to_bits(-1), u64::MAX);
    assert_eq!(to_bits(i64::MIN), 1 << 63);
    assert_eq!(to_bits(5), 5);
    assert_eq!(from_bits(u64::MAX), -1);
    assert_eq!(from_bits(1 << 63), i64::MIN);
    assert_eq!(from_bits(5), 5);
}

#[test]
fn any_slice_of_bytes_is_read_and_written_in_range() {
    let mut buffer = [0u8; 6];
    assert!(write_bytes(&mut buffer, 4, &[1, 2]));
    assert!(!write_bytes(&mut buffer, 5, &[1, 2]));
    assert_eq!(buffer, [0, 0, 0, 0, 1, 2]);
    assert_eq!(read_bytes(&buffer, 4, 2), Some(&[1u8, 2][..]));
    assert_eq!(read_bytes(&buffer, 4, 3), None);
    assert_eq!(read_bytes(&buffer, 6, 0), Some(&[][..]));
}

#[test]
fn a_mapped_region_is_a_memory_unit() {
    let mut map = MmapMut::map_anon(16).expect("an anonymous mapping");
    assert!(map.write(14, &[3, 4]));
    assert!(!map.write(15, &[3, 4]));
    assert_eq!(map.read(13, 3), Some(&[0u8, 3, 4][..]));
    assert_eq!(map.read(13, 4), None);
    assert_eq!(&map[12..], &[0, 0, 3, 4]);
    let mut handler = MemoryHandler::MemoryRef(&mut map);
    assert!(handler.memory_mut(|m| m.write(0, &[9])));
    assert_eq!(handler.memory(|m| m.read(0, 2).map(|b| b.to_vec())), Some(vec![9, 0]));
}

#[test]
fn the_machine_is_idle_when_every_worker_has_ended() {
    let mut count = LiveCount::new();
    assert!(count.idle());
    assert!(count.start());
    assert!(count.start());
    assert!(!count.idle());
    assert_eq!(count.alive(), 2);
    count.end();
    assert!(!count.idle());
    count.end();
    assert!(count.idle());
    count.end();
    assert!(count.idle());
    assert_eq!(count.alive(), 0);
}
