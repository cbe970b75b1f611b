use raytracer::tiling::{get_job_count, job_count, plan_strips, Strip};

#[test]
fn strips_of_ten_rows_for_three_workers() {
    let strips = plan_strips(10, 3);
    assert_eq!(
        strips,
        vec![
            Strip { y_offset: 0, height: 4 },
            Strip { y_offset: 4, height: 3 },
            Strip { y_offset: 7, height: 3 },
        ]
    );
}

#[test]
fn strips_cover_image_and_differ_by_at_most_one() {
    for img_height in 1..40usize {
        for n in 1..=img_height {
            let strips = plan_strips(img_height, n);
            assert_eq!(strips.len(), n);
            let total: usize = strips.iter().map(|s| s.height).sum();
            assert_eq!(total, img_height);
            let mut next = 0;
            for s in &strips {
                assert_eq!(s.y_offset, next);
                next += s.height;
            }
            let lo = strips.iter().map(|s| s.height).min().unwrap();
            let hi = strips.iter().map(|s| s.height).max().unwrap();
            assert!(hi - lo <= 1);
        }
    }
}

#[test]
fn one_worker_takes_whole_image() {
    assert_eq!(plan_strips(7, 1), vec![Strip { y_offset: 0, height: 7 }]);
}

#[test]
fn more_workers_than_rows_leaves_empty_strips() {
    let strips = plan_strips(2, 4);
    let heights: Vec<usize> = strips.iter().map(|s| s.height).collect();
    assert_eq!(heights, vec![1, 1, 0, 0]);
}

#[test]
fn job_count_default_and_clamping() {
    assert_eq!(job_count(0, 8), 7);
    assert_eq!(job_count(0, 1), 1);
    assert_eq!(job_count(0, 0), 1);
    assert_eq!(job_count(3, 8), 3);
    assert_eq!(job_count(8, 8), 8);
    assert_eq!(job_count(16, 8), 8);
}

#[test]
fn job_count_on_this_machine() {
    assert_eq!(get_job_count(1), 1);
    assert!(get_job_count(0) >= 1);
    assert!(get_job_count(2) <= 2);
}
