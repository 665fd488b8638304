use pathtracer::scalar::Scalar;
use pathtracer::threadpool::{schedule_frame, ControlPacket, DataPacket, Progress, ThreadPool};
use pathtracer::vector::Vec3;

fn s(x: f64) -> Scalar {
    Scalar::from_bits(x.to_bits())
}

#[test]
fn control_packet_fields() {
    let p = ControlPacket::new(3, 4, 10, 640, 480, 50);
    assert_eq!(
        p,
        ControlPacket { row: 3, col: 4, done: false, samples: 10, image_width: 640, image_height: 480, max_depth: 50 }
    );
    let d = ControlPacket::done();
    assert_eq!(
        d,
        ControlPacket { row: 0, col: 0, done: true, samples: 0, image_width: 0, image_height: 0, max_depth: 0 }
    );
}

#[test]
fn worker_answers_for_the_same_pixel() {
    let job = ControlPacket::new(7, 9, 1, 20, 10, 5);
    let colour = Vec3::new(s(0.25), s(0.5), s(0.75));
    let d = DataPacket::answer(&job, colour).unwrap();
    assert_eq!((d.row, d.col), (7, 9));
    assert_eq!(d.color.y().to_bits(), 0.5f64.to_bits());
    assert!(DataPacket::answer(&ControlPacket::done(), colour).is_none());
    let direct = DataPacket::new(1, 2, colour);
    assert_eq!((direct.row, direct.col), (1, 2));
    assert_eq!(direct.color.z().to_bits(), 0.75f64.to_bits());
}

#[test]
fn new_pool_owes_nothing() {
    let pool = ThreadPool::new(4);
    assert_eq!(pool.workers(), 4);
    for w in 0..4 {
        assert_eq!(pool.packets_sent(w), 0);
    }
    assert_eq!(pool.packets_sent(4), 0);
}

#[test]
fn jobs_go_round_the_workers() {
    let mut pool = ThreadPool::new(3);
    let mut workers = Vec::new();
    for k in 0..7u32 {
        let d = pool.run_c(k, k + 1, 2, 100, 100, 9);
        assert_eq!(d.packet, ControlPacket::new(k, k + 1, 2, 100, 100, 9));
        workers.push(d.worker);
    }
    assert_eq!(workers, vec![0, 1, 2, 0, 1, 2, 0]);
    assert_eq!(pool.packets_sent(0), 3);
    assert_eq!(pool.packets_sent(1), 2);
    assert_eq!(pool.packets_sent(2), 2);
    let d = pool.run(ControlPacket::done());
    assert_eq!(d.worker, 1);
    assert!(d.packet.done);
    assert_eq!(pool.packets_sent(1), 3);
}

#[test]
fn single_worker_gets_everything() {
    let mut pool = ThreadPool::new(1);
    for _ in 0..5 {
        assert_eq!(pool.run_c(0, 0, 1, 1, 1, 1).worker, 0);
    }
    assert_eq!(pool.packets_sent(0), 5);
}

#[test]
fn drain_takes_from_the_first_worker_that_owes() {
    let mut pool = ThreadPool::new(3);
    for _ in 0..5 {
        pool.run_c(0, 0, 1, 1, 1, 1);
    }
    let mut order = Vec::new();
    while let Some(w) = pool.drain() {
        order.push(w);
    }
    assert_eq!(order, vec![0, 0, 1, 1, 2]);
    assert!(pool.drain().is_none());
    for w in 0..3 {
        assert_eq!(pool.packets_sent(w), 0);
    }
}

#[test]
fn frame_is_scheduled_row_by_row() {
    let mut pool = ThreadPool::new(4);
    let jobs = schedule_frame(&mut pool, 3, 5, 2, 8);
    assert_eq!(jobs.len(), 10);
    for (k, d) in jobs.iter().enumerate() {
        assert_eq!(d.worker, k % 4);
        assert_eq!(d.packet, ControlPacket::new((k / 5) as u32, (k % 5) as u32, 3, 5, 2, 8));
    }
    assert_eq!(pool.packets_sent(0), 3);
    assert_eq!(pool.packets_sent(1), 3);
    assert_eq!(pool.packets_sent(2), 2);
    assert_eq!(pool.packets_sent(3), 2);
    assert_eq!(pool.run_c(0, 0, 1, 1, 1, 1).worker, 2);
}

#[test]
fn empty_frames_schedule_nothing() {
    let mut pool = ThreadPool::new(2);
    assert!(schedule_frame(&mut pool, 1, 0, 7, 1).is_empty());
    assert!(schedule_frame(&mut pool, 1, 7, 0, 1).is_empty());
    assert!(pool.drain().is_none());
}

#[test]
fn every_pixel_comes_back_exactly_once() {
    for workers in [1usize, 2, 3, 7, 16] {
        for (width, height) in [(1u32, 1u32), (4, 3), (7, 5), (16, 9), (3, 33)] {
            let mut pool = ThreadPool::new(workers);
            let jobs = schedule_frame(&mut pool, 1, width, height, 5);
            let mut queues: Vec<std::collections::VecDeque<DataPacket>> = vec![Default::default(); workers];
            for d in &jobs {
                let colour = Vec3::new(s(d.packet.row as f64), s(d.packet.col as f64), s(0.0));
                queues[d.worker].push_back(DataPacket::answer(&d.packet, colour).unwrap());
            }
            let mut seen = vec![0u32; (width * height) as usize];
            let mut drained = 0;
            while let Some(w) = pool.drain() {
                let d = queues[w].pop_front().expect("a worker owes a result that it never got a job for");
                assert!(d.row < height && d.col < width);
                assert_eq!(d.color.x().to_bits(), (d.row as f64).to_bits());
                seen[(d.row * width + d.col) as usize] += 1;
                drained += 1;
            }
            assert_eq!(drained, width * height);
            assert!(seen.iter().all(|&n| n == 1));
            assert!(queues.iter().all(|q| q.is_empty()));
        }
    }
}

#[test]
fn scheduling_goes_on_where_the_turn_stands() {
    let mut pool = ThreadPool::new(3);
    pool.run_c(0, 0, 1, 1, 1, 1);
    let jobs = schedule_frame(&mut pool, 1, 2, 2, 1);
    let workers: Vec<usize> = jobs.iter().map(|d| d.worker).collect();
    assert_eq!(workers, vec![1, 2, 0, 1]);
    assert_eq!(pool.packets_sent(0), 2);
    assert_eq!(pool.packets_sent(1), 2);
    assert_eq!(pool.packets_sent(2), 1);
}

#[test]
fn progress_is_reported_at_the_first_result_and_then_at_intervals() {
    let mut p = Progress::new(3);
    let mut reports = Vec::new();
    for _ in 0..10 {
        if let Some(n) = p.tick() {
            reports.push(n);
        }
    }
    assert_eq!(reports, vec![0, 3, 6, 9]);
    assert_eq!(p.pixels_written(), 10);
}

#[test]
fn progress_with_interval_one_or_less_reports_every_time() {
    for interval in [1, 0, -5] {
        let mut p = Progress::new(interval);
        for k in 0..6 {
            assert_eq!(p.tick(), Some(k));
        }
    }
}

#[test]
fn shutdown_stops_every_worker() {
    let mut pool = ThreadPool::new(3);
    pool.run_c(1, 1, 1, 2, 2, 1);
    let stops = pool.shutdown();
    assert_eq!(stops.len(), 3);
    for (w, d) in stops.iter().enumerate() {
        assert_eq!(d.worker, w);
        assert_eq!(d.packet, ControlPacket::done());
    }
    assert_eq!(pool.packets_sent(0), 1);
}
