use dinotrain::utils::{check_collision, get_scale_value, isqrt, remove_indexes, sat_add, sat_mul, str_to_u8_array};

#[test]
fn test_scale_value() {
    let max = 10;
    let min = 2;
    let scale_interval = 2;
    let score_interval = 10;
    assert_eq!(get_scale_value(max, min, scale_interval, 0, score_interval, false), min);
    assert_eq!(get_scale_value(max, min, scale_interval, 5, score_interval, false), min);
    assert_eq!(
        get_scale_value(max, min, scale_interval, 10, score_interval, false),
        min + scale_interval
    );
    assert_eq!(
        get_scale_value(max, min, scale_interval, 15, score_interval, false),
        min + scale_interval
    );
    assert_eq!(
        get_scale_value(max, min, scale_interval, 20, score_interval, false),
        min + scale_interval * 2
    );
    assert_eq!(get_scale_value(max, min, scale_interval, 150, score_interval, false), max);

    assert_eq!(get_scale_value(max, min, scale_interval, 0, score_interval, true), max);
    assert_eq!(get_scale_value(max, min, scale_interval, 5, score_interval, true), max);
    assert_eq!(
        get_scale_value(max, min, scale_interval, 10, score_interval, true),
        max - scale_interval
    );
    assert_eq!(
        get_scale_value(max, min, scale_interval, 15, score_interval, true),
        max - scale_interval
    );
    assert_eq!(
        get_scale_value(max, min, scale_interval, 20, score_interval, true),
        max - scale_interval * 2
    );
    assert_eq!(get_scale_value(max, min, scale_interval, 150, score_interval, true), min);
}

#[test]
fn test_check_collision() {
    // Squares overlap
    let collision_1 = check_collision(0, 0, 5, 5, 3, 3, 5, 5);
    assert!(collision_1);

    // Squares do not overlap
    let collision_2 = check_collision(0, 0, 5, 5, 10, 10, 5, 5);
    assert!(!collision_2);

    // Squares partially overlap
    let collision_3 = check_collision(0, 0, 5, 5, 3, 3, 5, 10);
    assert!(collision_3);

    // Squares share an edge
    let collision_4 = check_collision(0, 0, 5, 5, 5, 5, 5, 5);
    assert!(collision_4);

    // negative coordinates

    // Squares overlap
    let collision_5 = check_collision(-5, -5, 10, 10, -3, -3, 5, 5);
    assert!(collision_5);

    // Squares do not overlap
    let collision_6 = check_collision(-5, -5, 10, 10, 10, 10, 5, 5);
    assert!(!collision_6);

    // Squares partially overlap
    let collision_7 = check_collision(-5, -5, 10, 10, -3, -3, 5, 20);
    assert!(collision_7);

    // Squares share an edge (touching counts)
    let collision_8 = check_collision(-5, -5, 10, 10, 5, 5, 10, 10);
    assert!(collision_8);
}

#[test]
fn test_check_collision_symmetric_samples() {
    let rects = [
        (0i64, 0i64, 5i64, 5i64),
        (3, 3, 5, 5),
        (10, 10, 5, 5),
        (-5, -5, 10, 10),
        (5, 5, 10, 10),
        (-3, -3, 5, 20),
    ];
    for a in rects.iter() {
        for b in rects.iter() {
            assert_eq!(
                check_collision(a.0, a.1, a.2, a.3, b.0, b.1, b.2, b.3),
                check_collision(b.0, b.1, b.2, b.3, a.0, a.1, a.2, a.3)
            );
        }
    }
}

#[test]
fn test_remove_indexes() {
    // Create a vector with some elements
    let mut vec = vec![1, 2, 3, 4, 5, 6, 7, 8, 9, 10];

    // Define the indexes to remove
    let indexes = vec![2, 5, 8];

    // Remove the elements at the specified indexes
    remove_indexes(&mut vec, &indexes);

    // Verify the vector after removal
    assert_eq!(vec, vec![1, 2, 4, 5, 7, 8, 10]);
}

#[test]
fn test_remove_indexes_empty_vec() {
    let mut vec: Vec<i32> = vec![];
    let indexes = vec![1, 2, 3]; // Indexes to remove

    remove_indexes(&mut vec, &indexes);

    assert_eq!(vec.len(), 0); // Empty vector remains unchanged
}

#[test]
fn test_remove_indexes_all_elements() {
    let mut vec = vec![1, 2, 3, 4, 5];
    let indexes = vec![0, 1, 2, 3, 4]; // Indexes to remove

    remove_indexes(&mut vec, &indexes);

    assert_eq!(vec.len(), 0); // All elements removed, resulting in an empty vector
}

#[test]
fn test_str_to_u8_array_pads_and_truncates() {
    let short = str_to_u8_array("gra");
    assert_eq!(&short[..3], b"gra");
    assert!(short[3..].iter().all(|&b| b == 0));

    let long = str_to_u8_array("abcdefghijklmnopqrstuvwxyz0123456789");
    assert_eq!(&long[..], b"abcdefghijklmnopqrstuvwxyz012345");

    let empty = str_to_u8_array("");
    assert_eq!(empty, [0u8; 32]);
}

#[test]
fn test_isqrt_exact_values() {
    assert_eq!(isqrt(0), 0);
    assert_eq!(isqrt(1), 1);
    assert_eq!(isqrt(3), 1);
    assert_eq!(isqrt(4), 2);
    assert_eq!(isqrt(99), 9);
    assert_eq!(isqrt(100), 10);
    assert_eq!(isqrt(u64::MAX), 4294967295);
}

#[test]
fn test_saturating_helpers() {
    assert_eq!(sat_add(1, 2), 3);
    assert_eq!(sat_add(u64::MAX, 1), u64::MAX);
    assert_eq!(sat_mul(3, 4), 12);
    assert_eq!(sat_mul(u64::MAX, 2), u64::MAX);
}

#[test]
fn test_program_args_hold_the_run_mode() {
    let args = dinotrain::program_args::ProgramArgs {
        folder_path: Some("run".to_string()),
        brain_path: None,
        play: false,
    };
    assert_eq!(args.folder_path.as_deref(), Some("run"));
    assert!(args.brain_path.is_none());
    assert!(!args.play);
}
