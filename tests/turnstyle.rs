use futures::{future, Async, Future};
use turnstyle::{Line, Turnstyle};

#[test]
fn single_waiter() {
    future::lazy(|| {
        let ts = Turnstyle::new();

        let mut w = ts.join();
        assert!(!w.poll().unwrap().is_ready());

        ts.turn();
        assert!(w.poll().unwrap().is_ready());

        future::ok::<_, ()>(())
    })
    .wait()
    .unwrap();
}

#[test]
fn multiple_waiters() {
    future::lazy(|| {
        let ts = Turnstyle::new();
        let mut w1 = ts.join();
        let mut w2 = ts.join();
        let mut w3 = ts.join();

        assert!(!w1.poll().unwrap().is_ready());
        assert!(!w2.poll().unwrap().is_ready());
        assert!(!w2.poll().unwrap().is_ready());

        ts.turn();
        assert!(w1.poll().unwrap().is_ready());
        assert!(!w2.poll().unwrap().is_ready());
        assert!(!w3.poll().unwrap().is_ready());

        ts.turn();
        assert!(w2.poll().unwrap().is_ready());
        assert!(!w3.poll().unwrap().is_ready());

        ts.turn();
        assert!(w3.poll().unwrap().is_ready());

        future::ok::<_, ()>(())
    })
    .wait()
    .unwrap();
}

#[test]
fn versions() {
    future::lazy(|| {
        let ts = Turnstyle::new();
        let mut w1 = ts.join();
        let mut w2 = ts.join();
        let mut w3 = ts.join();

        ts.turn();
        ts.turn();
        ts.turn();

        if let Async::Ready(w1v) = w1.poll().unwrap() {
            assert_eq!(w1v, 0);
        } else {
            panic!("waiter 1 was not ready");
        }

        if let Async::Ready(w2v) = w2.poll().unwrap() {
            assert_eq!(w2v, 1);
        } else {
            panic!("waiter 2 was not ready");
        }

        if let Async::Ready(w3v) = w3.poll().unwrap() {
            assert_eq!(w3v, 2);
        } else {
            panic!("waiter 3 was not ready");
        }

        future::ok::<_, ()>(())
    })
    .wait()
    .unwrap();
}

#[test]
fn on_drop() {
    future::lazy(|| {
        let ts = Turnstyle::new();
        let mut w1 = ts.join();
        let mut w2 = ts.join();
        let mut w3 = ts.join();

        assert!(!w1.poll().unwrap().is_ready());
        assert!(!w2.poll().unwrap().is_ready());
        assert!(!w2.poll().unwrap().is_ready());

        drop(ts);

        assert!(w1.poll().unwrap().is_ready());
        assert!(w2.poll().unwrap().is_ready());
        assert!(w3.poll().unwrap().is_ready());

        future::ok::<_, ()>(())
    })
    .wait()
    .unwrap();
}

#[test]
fn turn_on_empty_line_is_a_noop() {
    let mut line = Line::new();
    assert!(!line.turn());
    assert_eq!(line.pass_one(), None);
    let _w = line.join();
    assert_eq!(line.pass_one(), Some(0));
    assert!(!line.turn());
    let _w2 = line.join();
    assert_eq!(line.pass_one(), Some(1));
}

#[test]
fn turnstyle_turn_on_empty_returns_false() {
    let ts = Turnstyle::new();
    assert!(!ts.turn());
    let _w = ts.join();
    assert!(ts.turn());
    assert!(!ts.turn());
}

#[test]
fn pass_one_hands_out_numbers_in_join_order() {
    let mut line = Line::new();
    let _w1 = line.join();
    let _w2 = line.join();
    let _w3 = line.join();
    assert_eq!(line.pass_one(), Some(0));
    assert_eq!(line.pass_one(), Some(1));
    assert_eq!(line.pass_one(), Some(2));
    assert_eq!(line.pass_one(), None);
}

#[test]
fn scenario_three_turns_then_empty() {
    future::lazy(|| {
        let ts = Turnstyle::new();
        let mut w1 = ts.join();
        let mut w2 = ts.join();
        let mut w3 = ts.join();

        assert!(ts.turn());
        assert_eq!(w1.poll(), Ok(Async::Ready(0)));
        assert_eq!(w2.poll(), Ok(Async::NotReady));
        assert_eq!(w3.poll(), Ok(Async::NotReady));

        assert!(ts.turn());
        assert_eq!(w2.poll(), Ok(Async::Ready(1)));
        assert_eq!(w3.poll(), Ok(Async::NotReady));

        assert!(ts.turn());
        assert_eq!(w3.poll(), Ok(Async::Ready(2)));

        assert!(!ts.turn());
        future::ok::<_, ()>(())
    })
    .wait()
    .unwrap();
}

#[test]
fn scenario_drop_releases_in_order_with_numbers() {
    future::lazy(|| {
        let ts = Turnstyle::new();
        let mut w1 = ts.join();
        let mut w2 = ts.join();
        let mut w3 = ts.join();
        drop(ts);
        assert_eq!(w1.poll(), Ok(Async::Ready(0)));
        assert_eq!(w2.poll(), Ok(Async::Ready(1)));
        assert_eq!(w3.poll(), Ok(Async::Ready(2)));
        future::ok::<_, ()>(())
    })
    .wait()
    .unwrap();
}

#[test]
fn drop_after_some_turns_continues_the_count() {
    future::lazy(|| {
        let mut line = Line::new();
        let mut w1 = line.join();
        let mut w2 = line.join();
        let mut w3 = line.join();
        assert!(line.turn());
        drop(line);
        assert_eq!(w1.poll(), Ok(Async::Ready(0)));
        assert_eq!(w2.poll(), Ok(Async::Ready(1)));
        assert_eq!(w3.poll(), Ok(Async::Ready(2)));
        future::ok::<_, ()>(())
    })
    .wait()
    .unwrap();
}

#[test]
fn clones_share_one_line() {
    future::lazy(|| {
        let ts = Turnstyle::new();
        let other = ts.clone();
        let mut w1 = ts.join();
        let mut w2 = other.join();
        assert!(other.turn());
        assert_eq!(w1.poll(), Ok(Async::Ready(0)));
        assert_eq!(w2.poll(), Ok(Async::NotReady));

        // Dropping one clone leaves the line to the others.
        drop(other);
        assert_eq!(w2.poll(), Ok(Async::NotReady));
        assert!(ts.turn());
        assert_eq!(w2.poll(), Ok(Async::Ready(1)));
        future::ok::<_, ()>(())
    })
    .wait()
    .unwrap();
}

#[test]
fn discarded_waiter_keeps_its_place() {
    future::lazy(|| {
        let ts = Turnstyle::new();
        let w1 = ts.join();
        let mut w2 = ts.join();
        drop(w1);
        assert!(ts.turn());
        assert_eq!(w2.poll(), Ok(Async::NotReady));
        assert!(ts.turn());
        assert_eq!(w2.poll(), Ok(Async::Ready(1)));
        assert!(!ts.turn());
        future::ok::<_, ()>(())
    })
    .wait()
    .unwrap();
}

#[test]
fn many_joins_then_as_many_turns() {
    let ts = Turnstyle::new();
    let mut waiters = Vec::new();
    for _ in 0..50 {
        waiters.push(ts.join());
    }
    for _ in 0..50 {
        assert!(ts.turn());
    }
    assert!(!ts.turn());
    future::lazy(move || {
        for (k, w) in waiters.iter_mut().enumerate() {
            assert_eq!(w.poll(), Ok(Async::Ready(k)));
        }
        future::ok::<_, ()>(())
    })
    .wait()
    .unwrap();
}

#[test]
fn interleaved_clones_hand_out_each_number_once() {
    let ts = Turnstyle::new();
    let clones: Vec<Turnstyle> = (0..4).map(|_| ts.clone()).collect();
    let mut waiters = Vec::new();
    let mut fired = 0;
    for round in 0..100 {
        for (c, t) in clones.iter().enumerate() {
            waiters.push(t.join());
            if (round + c) % 3 == 0 && t.turn() {
                fired += 1;
            }
        }
    }
    for t in clones.iter().cycle() {
        if !t.turn() {
            break;
        }
        fired += 1;
    }
    assert_eq!(fired, 400);
    assert!(!ts.turn());
    let seen = future::lazy(move || {
        let mut seen = Vec::new();
        for w in waiters.iter_mut() {
            match w.poll() {
                Ok(Async::Ready(n)) => seen.push(n),
                other => panic!("waiter not let through: {:?}", other),
            }
        }
        future::ok::<_, ()>(seen)
    })
    .wait()
    .unwrap();
    assert_eq!(seen, (0..400).collect::<Vec<usize>>());
}

#[test]
fn ready_waiter_answers_the_same_again() {
    let ts = Turnstyle::new();
    let mut w1 = ts.join();
    let mut w2 = ts.join();
    assert_eq!(w1.poll(), Ok(Async::NotReady));
    assert!(ts.turn());
    assert_eq!(w1.poll(), Ok(Async::Ready(0)));
    assert_eq!(w1.poll(), Ok(Async::Ready(0)));
    assert_eq!(w2.poll(), Ok(Async::NotReady));
    drop(ts);
    assert_eq!(w2.poll(), Ok(Async::Ready(1)));
    assert_eq!(w2.poll(), Ok(Async::Ready(1)));
}

#[test]
fn waiter_gives_up_its_number_or_its_receiver() {
    let ts = Turnstyle::new();
    let mut w1 = ts.join();
    let w2 = ts.join();
    assert!(ts.turn());
    assert_eq!(w1.poll(), Ok(Async::Ready(0)));
    assert_eq!(w1.into_receiver().ok(), Some(0));
    let rx = w2.into_receiver().err().unwrap();
    assert!(ts.turn());
    assert_eq!(rx.wait(), Ok(1));
}
