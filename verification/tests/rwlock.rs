use page_lock::{Poll, Read, ReadGuard, RwLock, Stage, Write, WriteGuard, WriteStage};
use std::collections::VecDeque;

fn done<T>(r: Poll<T>) -> T {
    match r {
        Poll::Ready(v) => v,
        Poll::Pending => panic!("the operation is still pending"),
    }
}

#[test]
fn read_shared() {
    let mut rwlock: RwLock<i32, u32> = RwLock::new();

    let mut t1 = rwlock.read(0);
    let (_g1, _) = done(t1.poll(&mut rwlock, 1));
    let mut t2 = rwlock.read(0);
    assert!(matches!(t2.poll(&mut rwlock, 2), Poll::Ready(_)));
}

// While a shared owner is active, exclusive access is not possible.
#[test]
fn write_shared_pending() {
    let mut rwlock: RwLock<i32, u32> = RwLock::new();
    let mut t1 = rwlock.read(0);
    let (_g1, _) = done(t1.poll(&mut rwlock, 1));
    let mut t2 = rwlock.write(0);
    assert!(matches!(t2.poll(&mut rwlock, 2), Poll::Pending));
}

// While an exclusive owner is active, shared access is not possible.
#[test]
fn read_exclusive_pending() {
    let mut rwlock: RwLock<i32, u32> = RwLock::new();
    let mut t1 = rwlock.write(0);

    let _g1 = done(t1.poll(&mut rwlock, 1));
    let mut t2 = rwlock.read(0);
    assert!(matches!(t2.poll(&mut rwlock, 2), Poll::Pending));
}

// While an exclusive owner is active, further exclusive access is not possible.
#[test]
fn write_exclusive_pending() {
    let mut rwlock: RwLock<i32, u32> = RwLock::new();
    let mut t1 = rwlock.write(0);

    let _g1 = done(t1.poll(&mut rwlock, 1));
    let mut t2 = rwlock.write(0);
    assert!(matches!(t2.poll(&mut rwlock, 2), Poll::Pending));
}

// Exclusive access becomes possible once the shared owner is gone.
#[test]
fn write_shared_drop() {
    let mut rwlock: RwLock<i32, u32> = RwLock::new();
    let mut t1 = rwlock.read(0);

    let (g1, _) = done(t1.poll(&mut rwlock, 1));
    let mut t2 = rwlock.write(0);
    assert!(matches!(t2.poll(&mut rwlock, 2), Poll::Pending));
    let woken = rwlock.unlock_read(g1);
    assert!(woken == Some(2));
    assert!(matches!(t2.poll(&mut rwlock, 2), Poll::Ready(_)));
}

// With shared owners active and an exclusive acquire pending, further shared
// access is not possible.
#[test]
fn write_read_shared_pending() {
    let mut rwlock: RwLock<i32, u32> = RwLock::new();
    let mut t1 = rwlock.read(0);
    let (_g1, _) = done(t1.poll(&mut rwlock, 1));

    let mut t2 = rwlock.read(0);
    assert!(matches!(t2.poll(&mut rwlock, 2), Poll::Ready(_)));

    let mut t3 = rwlock.write(0);
    assert!(matches!(t3.poll(&mut rwlock, 3), Poll::Pending));

    let mut t4 = rwlock.read(0);
    assert!(matches!(t4.poll(&mut rwlock, 4), Poll::Pending));
}

// With a shared owner active and an exclusive acquire pending, reading becomes
// possible again once the pending exclusive acquire is given up.
#[test]
fn write_read_shared_drop_pending() {
    let mut rwlock: RwLock<i32, u32> = RwLock::new();
    let mut t1 = rwlock.read(0);
    let (_g1, _) = done(t1.poll(&mut rwlock, 1));

    let mut t2 = rwlock.write(0);
    assert!(matches!(t2.poll(&mut rwlock, 2), Poll::Pending));

    let mut t3 = rwlock.read(0);
    assert!(matches!(t3.poll(&mut rwlock, 3), Poll::Pending));
    let woken = t2.cancel(&mut rwlock);

    assert!(woken == Some(3));
    assert!(matches!(t3.poll(&mut rwlock, 3), Poll::Ready(_)));
    assert_eq!(rwlock.reader_count(&0), 2);
}

struct Writer {
    step: u32,
    left: u32,
    op: Option<Write<i32>>,
}

#[test]
fn multithreaded() {
    let mut c: u32 = 0;
    let mut rwlock: RwLock<i32, usize> = RwLock::new();
    let mut tasks: Vec<Writer> = Vec::new();
    for step in [2u32, 3, 5, 7] {
        tasks.push(Writer { step, left: 1000, op: None });
    }
    let mut run: VecDeque<usize> = (0..tasks.len()).collect();
    let mut holder: Option<(usize, WriteGuard<i32>)> = None;
    while let Some(id) = run.pop_front() {
        // Whoever holds the guard lets go before the next task runs, so that
        // every acquire but the first meets a held or a handed-on key.
        if let Some((owner, guard)) = holder.take() {
            if owner == id {
                c += tasks[id].step;
                tasks[id].left -= 1;
                if let Some(next) = rwlock.unlock_write(guard) {
                    run.push_back(next);
                }
            } else {
                holder = Some((owner, guard));
            }
        }
        if tasks[id].op.is_none() {
            if tasks[id].left == 0 {
                continue;
            }
            tasks[id].op = Some(rwlock.write(0));
        }
        let mut op = tasks[id].op.take().unwrap();
        match op.poll(&mut rwlock, id) {
            Poll::Ready(guard) => {
                assert!(holder.is_none());
                assert!(rwlock.write_held(&guard));
                holder = Some((id, guard));
                run.push_back(id);
            }
            Poll::Pending => tasks[id].op = Some(op),
        }
    }
    assert!(holder.is_none());
    for task in &tasks {
        assert_eq!(task.left, 0);
    }
    let mut last = rwlock.read(0);
    let (_g, _) = done(last.poll(&mut rwlock, 0));
    assert_eq!(c, 17_000);
}

#[test]
fn rwlock_smoke() {
    let mut lock: RwLock<i32, u32> = RwLock::new();
    let mut r = lock.read(0);
    let (g, _) = done(r.poll(&mut lock, 1));
    assert_eq!(lock.unlock_read(g), None);
    let mut w = lock.write(0);
    let g = done(w.poll(&mut lock, 1));
    assert_eq!(lock.unlock_write(g), None);
    let mut r1 = lock.read(0);
    let mut r2 = lock.read(0);
    let (g1, _) = done(r1.poll(&mut lock, 1));
    let (g2, _) = done(r2.poll(&mut lock, 1));
    assert_eq!(lock.unlock_read(g1), None);
    assert_eq!(lock.unlock_read(g2), None);
    let mut w = lock.write(0);
    let g = done(w.poll(&mut lock, 1));
    assert_eq!(lock.unlock_write(g), None);
    assert!(!lock.is_locked(&0));
    assert_eq!(lock.reader_count(&0), 0);
}

enum Phase {
    Idle,
    Reading(Read<i32>),
    Writing(Write<i32>),
    HoldsRead(ReadGuard<i32>),
    HoldsWrite(WriteGuard<i32>),
}

#[test]
fn rwlock_contention() {
    const N: u32 = 10;
    const M: usize = 1000;
    let mut rw: RwLock<i32, usize> = RwLock::new();
    let mut seed: u32 = 12345;
    let mut phases: Vec<Phase> = Vec::new();
    let mut left: Vec<usize> = Vec::new();
    for _ in 0..N {
        phases.push(Phase::Idle);
        left.push(M);
    }
    let mut finished: u32 = 0;
    let mut writers: u32 = 0;
    let mut readers: usize = 0;
    let mut run: VecDeque<usize> = (0..phases.len()).collect();
    while let Some(id) = run.pop_front() {
        let phase = std::mem::replace(&mut phases[id], Phase::Idle);
        match phase {
            Phase::Idle => {
                if left[id] == 0 {
                    finished += 1;
                    continue;
                }
                left[id] -= 1;
                seed = seed.wrapping_mul(1664525).wrapping_add(1013904223);
                if (seed >> 16) % N == 0 {
                    phases[id] = Phase::Writing(rw.write(0));
                } else {
                    phases[id] = Phase::Reading(rw.read(0));
                }
                run.push_back(id);
            }
            Phase::Reading(mut op) => match op.poll(&mut rw, id) {
                Poll::Ready((guard, wake)) => {
                    readers += 1;
                    assert_eq!(writers, 0);
                    assert_eq!(rw.reader_count(&0), readers);
                    if let Some(next) = wake {
                        run.push_back(next);
                    }
                    phases[id] = Phase::HoldsRead(guard);
                    run.push_back(id);
                }
                Poll::Pending => phases[id] = Phase::Reading(op),
            },
            Phase::Writing(mut op) => match op.poll(&mut rw, id) {
                Poll::Ready(guard) => {
                    writers += 1;
                    assert_eq!(writers, 1);
                    assert_eq!(readers, 0);
                    assert!(rw.write_held(&guard));
                    phases[id] = Phase::HoldsWrite(guard);
                    run.push_back(id);
                }
                Poll::Pending => phases[id] = Phase::Writing(op),
            },
            Phase::HoldsRead(guard) => {
                readers -= 1;
                if let Some(next) = rw.unlock_read(guard) {
                    run.push_back(next);
                }
                run.push_back(id);
            }
            Phase::HoldsWrite(guard) => {
                writers -= 1;
                if let Some(next) = rw.unlock_write(guard) {
                    run.push_back(next);
                }
                run.push_back(id);
            }
        }
    }
    assert_eq!(finished, N);
    assert!(!rw.is_locked(&0));
    assert_eq!(rw.reader_count(&0), 0);
}

#[test]
fn writer_blocks_behind_readers() {
    let mut lock: RwLock<u8, u32> = RwLock::new();
    let mut r = lock.read(0);
    let (guard, _) = done(r.poll(&mut lock, 1));
    let mut w = lock.write(0);
    assert!(w.poll(&mut lock, 2).is_pending());
    assert!(matches!(w.stage(), WriteStage::Draining(0)));
    // A reader that comes after a pending writer waits behind it.
    let mut late = lock.read(0);
    assert!(late.poll(&mut lock, 3).is_pending());
    assert!(matches!(late.stage(), Stage::Parked(1)));
    // The last reader to leave wakes the writer.
    assert_eq!(lock.unlock_read(guard), Some(2));
    assert_eq!(lock.reader_count(&0), 0);
    let wg = done(w.poll(&mut lock, 2));
    assert!(lock.write_held(&wg));
    assert!(late.poll(&mut lock, 3).is_pending());
    // Once the writer is gone, the second reader is woken and gets in.
    assert_eq!(lock.unlock_write(wg), Some(3));
    let (g2, wake) = done(late.poll(&mut lock, 3));
    assert_eq!(wake, None);
    assert_eq!(g2.key(), 0);
    assert_eq!(lock.reader_count(&0), 1);
    assert!(!lock.is_locked(&0));
}

#[test]
fn a_drainer_waits_for_every_reader() {
    let mut lock: RwLock<u8, u32> = RwLock::new();
    let mut a = lock.read(5);
    let mut b = lock.read(5);
    let (ga, _) = done(a.poll(&mut lock, 1));
    let (gb, _) = done(b.poll(&mut lock, 2));
    assert_eq!(lock.reader_count(&5), 2);
    let mut w = lock.write(5);
    assert!(w.poll(&mut lock, 3).is_pending());
    assert_eq!(lock.unlock_read(ga), None);
    assert_eq!(lock.reader_count(&5), 1);
    assert!(w.poll(&mut lock, 3).is_pending());
    assert_eq!(lock.unlock_read(gb), Some(3));
    let g = done(w.poll(&mut lock, 3));
    assert_eq!(g.key(), 5);
    assert_eq!(g.ticket(), 0);
}

#[test]
fn writers_queue_behind_a_draining_writer() {
    let mut lock: RwLock<u8, u32> = RwLock::new();
    let mut r = lock.read(0);
    let (guard, _) = done(r.poll(&mut lock, 1));
    let mut first = lock.write(0);
    let mut second = lock.write(0);
    assert!(first.poll(&mut lock, 2).is_pending());
    assert!(second.poll(&mut lock, 3).is_pending());
    assert!(matches!(second.stage(), WriteStage::Queued(1)));
    assert_eq!(lock.unlock_read(guard), Some(2));
    assert!(second.poll(&mut lock, 3).is_pending());
    let g1 = done(first.poll(&mut lock, 2));
    assert_eq!(lock.unlock_write(g1), Some(3));
    let g2 = done(second.poll(&mut lock, 3));
    assert_eq!(lock.unlock_write(g2), None);
    assert!(!lock.is_locked(&0));
}

#[test]
fn a_reader_passes_the_mutex_on_to_the_next_writer() {
    let mut lock: RwLock<u8, u32> = RwLock::new();
    let mut w1 = lock.write(0);
    let g1 = done(w1.poll(&mut lock, 1));
    let mut r = lock.read(0);
    let mut w2 = lock.write(0);
    assert!(r.poll(&mut lock, 2).is_pending());
    assert!(w2.poll(&mut lock, 3).is_pending());
    assert_eq!(lock.unlock_write(g1), Some(2));
    // The reader gets in and hands the mutex to the writer behind it, which
    // then has to wait for the reader to leave.
    let (rg, wake) = done(r.poll(&mut lock, 2));
    assert_eq!(wake, Some(3));
    assert!(w2.poll(&mut lock, 3).is_pending());
    assert!(matches!(w2.stage(), WriteStage::Draining(2)));
    assert_eq!(lock.unlock_read(rg), Some(3));
    let g2 = done(w2.poll(&mut lock, 3));
    assert!(lock.write_held(&g2));
}

#[test]
fn cancelling_a_queued_writer_skips_it() {
    let mut lock: RwLock<u8, u32> = RwLock::new();
    let mut w1 = lock.write(0);
    let g1 = done(w1.poll(&mut lock, 1));
    let mut w2 = lock.write(0);
    let mut w3 = lock.write(0);
    assert!(w2.poll(&mut lock, 2).is_pending());
    assert!(w3.poll(&mut lock, 3).is_pending());
    assert_eq!(w2.cancel(&mut lock), None);
    assert_eq!(lock.unlock_write(g1), Some(3));
    let g3 = done(w3.poll(&mut lock, 3));
    assert_eq!(lock.unlock_write(g3), None);
    assert!(!lock.is_locked(&0));
}

#[test]
fn cancelling_a_writer_that_was_granted_passes_the_mutex_on() {
    let mut lock: RwLock<u8, u32> = RwLock::new();
    let mut w1 = lock.write(0);
    let g1 = done(w1.poll(&mut lock, 1));
    let mut w2 = lock.write(0);
    let mut w3 = lock.write(0);
    assert!(w2.poll(&mut lock, 2).is_pending());
    assert!(w3.poll(&mut lock, 3).is_pending());
    assert_eq!(lock.unlock_write(g1), Some(2));
    assert_eq!(w2.cancel(&mut lock), Some(3));
    assert!(w3.poll(&mut lock, 3).is_ready());
}

#[test]
fn cancelling_a_drainer_whose_readers_left_frees_the_key() {
    let mut lock: RwLock<u8, u32> = RwLock::new();
    let mut r = lock.read(0);
    let (guard, _) = done(r.poll(&mut lock, 1));
    let mut w = lock.write(0);
    assert!(w.poll(&mut lock, 2).is_pending());
    assert_eq!(lock.unlock_read(guard), Some(2));
    assert!(lock.is_locked(&0));
    assert_eq!(w.cancel(&mut lock), None);
    assert!(!lock.is_locked(&0));
}

#[test]
fn cancelling_a_drainer_keeps_the_readers() {
    let mut lock: RwLock<u8, u32> = RwLock::new();
    let mut r = lock.read(0);
    let (guard, _) = done(r.poll(&mut lock, 1));
    let mut w = lock.write(0);
    assert!(w.poll(&mut lock, 2).is_pending());
    assert_eq!(w.cancel(&mut lock), None);
    assert!(!lock.is_locked(&0));
    assert_eq!(lock.reader_count(&0), 1);
    // Nobody is left to wake when the reader goes.
    assert_eq!(lock.unlock_read(guard), None);
    assert_eq!(lock.reader_count(&0), 0);
}

#[test]
fn cancelling_a_parked_reader_leaves_the_queue() {
    let mut lock: RwLock<u8, u32> = RwLock::new();
    let mut w = lock.write(0);
    let g = done(w.poll(&mut lock, 1));
    let mut r = lock.read(0);
    assert!(r.poll(&mut lock, 2).is_pending());
    assert_eq!(r.cancel(&mut lock), None);
    assert_eq!(lock.unlock_write(g), None);
    assert!(!lock.is_locked(&0));
    assert_eq!(lock.reader_count(&0), 0);
}

#[test]
fn locks_on_distinct_keys_are_independent() {
    let mut lock: RwLock<u8, u32> = RwLock::new();
    let mut w0 = lock.write(0);
    let mut w1 = lock.write(1);
    let mut r2 = lock.read(2);
    let g0 = done(w0.poll(&mut lock, 1));
    let g1 = done(w1.poll(&mut lock, 2));
    let (g2, _) = done(r2.poll(&mut lock, 3));
    assert!(lock.write_held(&g0) && lock.write_held(&g1));
    assert_eq!(lock.reader_count(&2), 1);
    assert_eq!(lock.reader_count(&0), 0);
    assert_eq!(lock.unlock_write(g0), None);
    assert!(lock.write_held(&g1));
    assert_eq!(lock.unlock_read(g2), None);
    assert_eq!(lock.unlock_write(g1), None);
    assert!(lock.has_ticket());
}

#[test]
fn creating_a_read_or_write_leaves_the_table_alone() {
    let lock: RwLock<u8, u32> = RwLock::new();
    let r = lock.read(4);
    let w = lock.write(4);
    assert_eq!(r.key(), 4);
    assert_eq!(w.key(), 4);
    assert!(matches!(r.stage(), Stage::Init));
    assert!(matches!(w.stage(), WriteStage::Init));
    assert!(!lock.is_locked(&4));
    assert_eq!(lock.reader_count(&4), 0);
}
