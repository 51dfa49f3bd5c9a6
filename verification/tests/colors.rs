use cray::distr::master::{Master, WorkItem};
use cray::distr::schedule::{progress, worker_rows, Monitor};
use cray::geom::fast::ONE;
use cray::util::color::Color;

#[test]
fn colour_channels_to_eight_bits() {
    let c = Color::new(ONE, ONE / 2, 0);
    assert_eq!((c.r8(), c.g8(), c.b8()), (255, 127, 0));
    let d = Color::new_f32(2 * ONE, -5, ONE - 1);
    assert_eq!((d.r8(), d.g8(), d.b8()), (255, 0, 254));
}

#[test]
fn mix_weighs_and_limits_the_factor() {
    let a = Color::new(0, 1000, ONE);
    let b = Color::new(ONE, 3000, 0);
    assert_eq!(a.mix(&b, 0), a);
    assert_eq!(a.mix(&b, ONE), b);
    assert_eq!(a.mix(&b, ONE / 2), Color::new(ONE / 2, 2000, ONE / 2));
    assert_eq!(a.mix(&b, -7), a);
    assert_eq!(a.mix(&b, 5 * ONE), b);
    assert_eq!(a.mix(&b, ONE / 4), Color::new(ONE / 4, 1500, 3 * ONE / 4));
}

#[test]
fn rows_are_striped_over_workers() {
    assert_eq!(worker_rows(0, 3, 10), vec![0, 3, 6, 9]);
    assert_eq!(worker_rows(1, 3, 10), vec![1, 4, 7]);
    assert_eq!(worker_rows(2, 3, 10), vec![2, 5, 8]);
    assert_eq!(worker_rows(0, 1, 4), vec![0, 1, 2, 3]);
    assert_eq!(worker_rows(5, 8, 4), Vec::<usize>::new());
    assert_eq!(worker_rows(0, 4, 0), Vec::<usize>::new());
    assert_eq!(worker_rows(3, 4, 4), vec![3]);
    assert_eq!(worker_rows(usize::MAX - 1, usize::MAX, usize::MAX), vec![usize::MAX - 1]);
}

#[test]
fn stripes_partition_the_rows() {
    for workers in 1..9usize {
        for rows in 0..40usize {
            let mut seen = vec![0u32; rows];
            for w in 0..workers {
                let mut last: Option<usize> = None;
                for r in worker_rows(w, workers, rows) {
                    assert_eq!(r % workers, w);
                    assert!(last.map_or(true, |l| l < r));
                    last = Some(r);
                    seen[r] += 1;
                }
            }
            assert!(seen.iter().all(|&n| n == 1));
        }
    }
}

#[test]
fn progress_of_a_render() {
    assert_eq!(progress(0, 10, 1_000), (0, None));
    assert_eq!(progress(1, 10, 1_000), (1000, Some(9_000)));
    assert_eq!(progress(5, 10, 1_000), (5000, Some(1_000)));
    assert_eq!(progress(10, 10, 1_000), (10000, Some(0)));
    assert_eq!(progress(1, 3, 10), (3333, Some(20)));
    assert_eq!(progress(0, 0, 5), (10000, None));
    assert_eq!(
        progress(1, usize::MAX, u64::MAX),
        (0, Some(u64::MAX as u128 * (usize::MAX as u128 - 1)))
    );
}

#[test]
fn monitor_reports_the_part_done() {
    let m = Monitor::begin(8);
    assert_eq!(m.total, 8);
    let (part, left) = m.report(0);
    assert_eq!((part, left), (0, None));
    let (part, left) = m.report(2);
    assert_eq!(part, 2500);
    assert!(left.is_some());
    let (part, left) = m.report(8);
    assert_eq!((part, left), (10000, Some(0)));
}

#[test]
fn master_queues_all_items_in_order() {
    let items: Vec<WorkItem> = (0..5).map(|r| WorkItem { row: r }).collect();
    let m = Master::new(items.clone());
    assert_eq!(m.total_items, 5);
    assert_eq!(m.requests, items);
    assert!(m.results.is_empty());
    let e = Master::new(vec![]);
    assert_eq!(e.total_items, 0);
    assert!(e.requests.is_empty());
}
