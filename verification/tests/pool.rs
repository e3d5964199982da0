use sniffer::errors::OsError;
use sniffer::packet_memory::BufferPool;
use sniffer::transport::{finish_recv, syscall_result};
use sniffer::MTU;

#[test]
fn new_pool_holds_the_buffers_asked_for() {
    let pool = BufferPool::new(3, 16);
    assert_eq!(pool.count(), 3);
}

#[test]
fn empty_pool_is_valid() {
    let pool = BufferPool::new(0, 16);
    assert_eq!(pool.count(), 0);
}

#[test]
fn get_lends_zeroed_buffers_of_the_pools_size() {
    let mut pool = BufferPool::new(2, MTU as u32);
    let buffer = pool.get();
    assert_eq!(buffer, vec![0u8; 1500]);
    assert_eq!(pool.count(), 1);
}

#[test]
fn get_on_an_empty_pool_allocates() {
    let mut pool = BufferPool::new(0, 64);
    let first = pool.get();
    let second = pool.get();
    assert_eq!(first, vec![0u8; 64]);
    assert_eq!(second, vec![0u8; 64]);
    assert_eq!(pool.count(), 0);
}

#[test]
fn give_back_adds_to_the_idle_buffers() {
    let mut pool = BufferPool::new(1, 8);
    let buffer = pool.get();
    assert_eq!(pool.count(), 0);
    pool.give_back(buffer);
    assert_eq!(pool.count(), 1);
}

#[test]
fn last_in_goes_out_first() {
    let mut pool = BufferPool::new(1, 4);
    pool.give_back(vec![1, 1, 1, 1]);
    pool.give_back(vec![2, 2, 2, 2]);
    assert_eq!(pool.get(), vec![2, 2, 2, 2]);
    assert_eq!(pool.get(), vec![1, 1, 1, 1]);
    assert_eq!(pool.get(), vec![0, 0, 0, 0]);
    assert_eq!(pool.count(), 0);
    assert_eq!(pool.get(), vec![0, 0, 0, 0]);
}

#[test]
fn count_follows_the_calls() {
    // idle = idle before + given back - lent from among the idle
    let mut pool = BufferPool::new(2, 4);
    let a = pool.get();
    let b = pool.get();
    let c = pool.get(); // allocated: nothing was idle
    assert_eq!(pool.count(), 0);
    pool.give_back(a);
    assert_eq!(pool.count(), 1);
    let d = pool.get();
    assert_eq!(pool.count(), 0);
    pool.give_back(b);
    pool.give_back(c);
    pool.give_back(d);
    assert_eq!(pool.count(), 2 + 4 - 3);
}

#[test]
fn a_buffer_of_another_size_is_taken_and_tracked() {
    let mut pool = BufferPool::new(0, 4);
    pool.give_back(vec![9; 7]);
    assert_eq!(pool.count(), 1);
    assert_eq!(pool.get(), vec![9; 7]);
    assert_eq!(pool.get(), vec![0; 4]);
}

#[test]
fn create_adds_a_buffer_of_the_given_size() {
    let mut pool = BufferPool::new(0, 4);
    pool.create(10);
    assert_eq!(pool.count(), 1);
    assert_eq!(pool.get(), vec![0u8; 10]);
    assert_eq!(pool.count(), 0);
}

#[test]
fn zero_sized_buffers() {
    let mut pool = BufferPool::new(1, 0);
    assert_eq!(pool.get(), Vec::<u8>::new());
    assert_eq!(pool.get(), Vec::<u8>::new());
}

#[test]
fn syscall_results() {
    assert_eq!(syscall_result(0, 0), Ok(0));
    assert_eq!(syscall_result(1500, 0), Ok(1500));
    // an error number left over from an earlier call does not matter
    assert_eq!(syscall_result(34, 11), Ok(34));
    assert_eq!(syscall_result(-1, 1), Err(OsError { errno: 1 }));
    assert_eq!(syscall_result(isize::MIN, 105), Err(OsError { errno: 105 }));
    assert_eq!(syscall_result(isize::MAX, 0), Ok(isize::MAX as usize));
}

#[test]
fn finish_recv_hands_the_buffer_out() {
    let mut pool = BufferPool::new(1, 4);
    let buffer = pool.get();
    assert_eq!(
        finish_recv(&mut pool, buffer, Ok(3)),
        Ok((3, vec![0u8; 4]))
    );
    assert_eq!(pool.count(), 0);
}

#[test]
fn finish_recv_returns_the_buffer_after_a_failure() {
    let mut pool = BufferPool::new(1, 4);
    let mut buffer = pool.get();
    buffer[0] = 7;
    assert_eq!(
        finish_recv(&mut pool, buffer, Err(OsError { errno: 4 })),
        Err(OsError { errno: 4 })
    );
    assert_eq!(pool.count(), 1);
    assert_eq!(pool.get(), vec![7, 0, 0, 0]);
}
