use cs39::quant::ExitResult;
use cs39::size_test::{
    dim_label, dim_label_with, dim_sequence, find_dims, format_dim_line, integer_sqrt,
    parse_dim_line, rewrite_line, rewrite_source, run, size_test_start, size_test_step,
    split_size, target_sizes, Dim, DimError, SizeError, SizeNext, SizeStep, SizeTestError,
    MAX_TARGET,
};

fn lines(texts: &[&str]) -> Vec<String> {
    texts.iter().map(|s| s.to_string()).collect()
}

#[test]
fn directive_is_read() {
    assert_eq!(parse_dim_line(Dim::X, "#define XDIM 100"), Some(100));
    assert_eq!(parse_dim_line(Dim::Y, "#define YDIM\t 50  \r"), Some(50));
    assert_eq!(parse_dim_line(Dim::X, "#define XDIM 007\n"), Some(7));
    assert_eq!(
        parse_dim_line(Dim::X, "#define XDIM 340282366920938463463374607431768211455"),
        Some(u128::MAX)
    );
}

#[test]
fn directive_of_the_other_dimension_is_not_read() {
    assert_eq!(parse_dim_line(Dim::Y, "#define XDIM 100"), None);
    assert_eq!(parse_dim_line(Dim::X, "#define YDIM 100"), None);
}

#[test]
fn what_is_no_directive() {
    for line in [
        "",
        "#define XDIM",
        "#define XDIM ",
        "#define XDIM100",
        " #define XDIM 100",
        "#define XDIM 100;",
        "#define XDIM 1 0",
        "#define XDIM -1",
        "#define XDIM 1.5",
        "#define XDIM\u{a0}100",
        "#define  XDIM 100",
        "#define XDIM 340282366920938463463374607431768211456",
        "int x = 3;",
    ] {
        assert_eq!(parse_dim_line(Dim::X, line), None, "{:?}", line);
    }
}

#[test]
fn directive_is_written() {
    assert_eq!(format_dim_line(Dim::X, 100), "#define XDIM 100");
    assert_eq!(format_dim_line(Dim::Y, 0), "#define YDIM 0");
    assert_eq!(
        format_dim_line(Dim::Y, u128::MAX),
        "#define YDIM 340282366920938463463374607431768211455"
    );
}

#[test]
fn written_directive_reads_back() {
    for val in [0u128, 1, 9, 10, 99, 100, 12345678901234567890, u128::MAX] {
        assert_eq!(parse_dim_line(Dim::X, &format_dim_line(Dim::X, val)), Some(val));
        assert_eq!(parse_dim_line(Dim::Y, &format_dim_line(Dim::Y, val)), Some(val));
        assert_eq!(parse_dim_line(Dim::X, &format_dim_line(Dim::Y, val)), None);
    }
}

#[test]
fn dim_has_its_place() {
    assert_eq!(Dim::X.index(), 0);
    assert_eq!(Dim::Y.index(), 1);
    assert_eq!(Dim::X.directive(), "#define XDIM");
    assert_eq!(Dim::Y.directive(), "#define YDIM");
}

#[test]
fn both_dimensions_are_found() {
    let source = lines(&["#include <x>", "#define XDIM 100", "int main() {}", "#define YDIM 50"]);
    assert_eq!(find_dims(&source), Ok((100, 50)));
}

#[test]
fn missing_dimension_is_reported() {
    assert_eq!(find_dims(&Vec::new()), Err(DimError::NotFound(Dim::X)));
    assert_eq!(find_dims(&lines(&["#define YDIM 50"])), Err(DimError::NotFound(Dim::X)));
    assert_eq!(find_dims(&lines(&["#define XDIM 50"])), Err(DimError::NotFound(Dim::Y)));
}

#[test]
fn second_definition_is_reported() {
    let source = lines(&["#define XDIM 1", "#define YDIM 2", "#define YDIM 3", "#define XDIM 4"]);
    assert_eq!(find_dims(&source), Err(DimError::DefinedTwice(Dim::Y)));
    let source = lines(&["#define XDIM 1", "#define XDIM 1"]);
    assert_eq!(find_dims(&source), Err(DimError::DefinedTwice(Dim::X)));
}

#[test]
fn square_roots_round_down() {
    for (n, r) in [(0u128, 0u128), (1, 1), (2, 1), (3, 1), (4, 2), (8, 2), (9, 3), (2500, 50), (4999, 70)] {
        assert_eq!(integer_sqrt(n), r);
    }
    assert_eq!(integer_sqrt(u128::MAX), u64::MAX as u128);
    assert_eq!(integer_sqrt((u64::MAX as u128) * (u64::MAX as u128)), u64::MAX as u128);
    assert_eq!(integer_sqrt((u64::MAX as u128) * (u64::MAX as u128) - 1), u64::MAX as u128 - 1);
}

#[test]
fn sizes_double_up_to_the_cap() {
    let sizes = target_sizes(5000, MAX_TARGET);
    let want: Vec<u128> = (0..13).map(|k| 5000u128 << k).collect();
    assert_eq!(sizes, want);
    // A lower cap ends the doubling sooner.
    assert_eq!(target_sizes(5000, 39999), vec![5000, 10000, 20000]);
    assert_eq!(target_sizes(5000, 40000), vec![5000, 10000, 20000, 40000]);
    assert_eq!(target_sizes(5000, 5000), vec![5000]);
    assert_eq!(target_sizes(5000, 4999), Vec::<u128>::new());
}

#[test]
fn sizes_start_below_a_large_base() {
    // 2^20 elements: halved eight times to 2^12, then doubled up to 2^30.
    let sizes = target_sizes(1 << 20, MAX_TARGET);
    let want: Vec<u128> = (12..=30).map(|k| 1u128 << k).collect();
    assert_eq!(sizes, want);
    // At most ten halvings.
    assert_eq!(
        target_sizes(1 << 30, MAX_TARGET),
        (20..=30).map(|k| 1u128 << k).collect::<Vec<u128>>()
    );
    // A base so large that even the first size is beyond the cap.
    assert_eq!(target_sizes(1 << 50, MAX_TARGET), Vec::<u128>::new());
    assert_eq!(target_sizes(1 << 50, 1 << 40), vec![1 << 40]);
    assert_eq!(
        target_sizes(1, MAX_TARGET),
        vec![1, 2, 4, 8, 16, 32, 64, 128, 256, 512, 1024, 2048, 4096]
    );
    assert_eq!(target_sizes(8191, MAX_TARGET), (0..13).map(|k| 8191u128 << k).collect::<Vec<u128>>());
    assert_eq!(target_sizes(8192, MAX_TARGET)[0], 4096);
    let sizes = target_sizes(u128::MAX, u128::MAX);
    assert_eq!(sizes.len(), 11);
    assert_eq!(sizes[0], u128::MAX >> 10);
    assert_eq!(sizes[10], (u128::MAX >> 10) << 10);
}

#[test]
fn size_is_laid_out_in_proportion() {
    assert_eq!(split_size(5000, 100, 50), Some(SizeStep { size: 5000, x: 100, y: 50 }));
    assert_eq!(split_size(20000, 100, 50), Some(SizeStep { size: 20000, x: 200, y: 100 }));
    assert_eq!(split_size(10000, 100, 50), Some(SizeStep { size: 10000, x: 142, y: 70 }));
    assert_eq!(split_size(21, 3, 7), Some(SizeStep { size: 21, x: 3, y: 7 }));
    assert_eq!(
        split_size(1061683200, 1920, 1080),
        Some(SizeStep { size: 1061683200, x: 43445, y: 24437 })
    );
}

#[test]
fn size_that_cannot_be_laid_out() {
    assert_eq!(split_size(100, 0, 5), None);
    assert_eq!(split_size(0, 1, 1), None);
    assert_eq!(split_size(10, 1000, 1), None);
    assert_eq!(split_size(2, 1, 100), None);
    assert_eq!(split_size(u128::MAX, 1, 2), None);
}

#[test]
fn size_sweep_generator() {
    let steps = dim_sequence(100, 50, MAX_TARGET).unwrap();
    let want = [
        (5000u128, 100u128, 50u128),
        (10000, 142, 70),
        (20000, 200, 100),
        (40000, 283, 141),
        (80000, 400, 200),
        (160000, 567, 282),
        (320000, 800, 400),
        (640000, 1132, 565),
        (1280000, 1600, 800),
        (2560000, 2263, 1131),
        (5120000, 3200, 1600),
        (10240000, 4526, 2262),
        (20480000, 6400, 3200),
    ];
    assert_eq!(steps.len(), want.len());
    for (step, (size, x, y)) in steps.iter().zip(want) {
        assert_eq!((step.size, step.x, step.y), (size, x, y));
    }
    for pair in steps.windows(2) {
        assert_eq!(pair[1].size, 2 * pair[0].size);
        assert!(pair[0].x * pair[0].y < pair[1].x * pair[1].y);
    }
    for step in &steps {
        assert!(step.size <= MAX_TARGET);
        assert!(step.size <= 5000 << 12);
        let product = step.x * step.y;
        // The product is the size within the rounding of one dimension.
        assert!(product <= step.size && step.size - product < step.y);
        assert!(step.size - product <= step.x.max(step.y));
        assert!(product <= MAX_TARGET);
        // The proportion is that of the base, 2 to 1, within rounding.
        assert!(19 * step.y <= 10 * step.x && 10 * step.x <= 21 * step.y);
        assert!(100 * step.y < 50 * (step.x + 1));
        assert!(50 * product < 100 * (step.y + 1) * (step.y + 1));
    }
}

#[test]
fn size_sweep_of_other_bases() {
    let steps = dim_sequence(1024, 1024, MAX_TARGET).unwrap();
    assert_eq!(steps.len(), 19);
    assert_eq!(steps[0], SizeStep { size: 4096, x: 64, y: 64 });
    assert_eq!(steps[1], SizeStep { size: 8192, x: 91, y: 90 });
    assert_eq!(steps[18], SizeStep { size: 1073741824, x: 32768, y: 32768 });
    let steps = dim_sequence(40000, 30000, MAX_TARGET).unwrap();
    assert_eq!(steps.len(), 10);
    assert_eq!(steps[0], SizeStep { size: 1171875, x: 1250, y: 937 });
    assert_eq!(steps[9], SizeStep { size: 600000000, x: 28284, y: 21213 });
    let steps = dim_sequence(1920, 1080, MAX_TARGET).unwrap();
    assert_eq!(steps.len(), 18);
    assert_eq!(steps[17], SizeStep { size: 1061683200, x: 43445, y: 24437 });
    for step in &steps {
        assert!(step.x * step.y <= MAX_TARGET);
    }
}

#[test]
fn size_sweep_under_another_cap() {
    let steps = dim_sequence(100, 50, 20000).unwrap();
    assert_eq!(steps.len(), 3);
    assert!(steps.iter().all(|s| s.x * s.y <= 20000));
    assert_eq!(dim_sequence(100, 50, 5000).unwrap().len(), 1);
}

#[test]
fn size_sweep_that_cannot_be_made() {
    assert_eq!(dim_sequence(0, 50, MAX_TARGET), Err(SizeError::EmptyBase));
    assert_eq!(dim_sequence(50, 0, MAX_TARGET), Err(SizeError::EmptyBase));
    assert_eq!(dim_sequence(u128::MAX, 2, MAX_TARGET), Err(SizeError::BaseTooLarge));
    assert_eq!(dim_sequence(100, 50, 4999), Err(SizeError::OverCap));
    assert_eq!(dim_sequence(1 << 25, 1 << 25, MAX_TARGET), Err(SizeError::OverCap));
    // The first size is 4096 elements, in rows of 65536.
    assert_eq!(dim_sequence(1, 1 << 20, MAX_TARGET), Err(SizeError::NoSplit { size: 4096 }));
    // The first size is 2^20 elements, in rows of none.
    assert_eq!(dim_sequence(1 << 30, 1, MAX_TARGET), Err(SizeError::NoSplit { size: 1 << 20 }));
    assert!(dim_sequence(1, 1000, MAX_TARGET).is_ok());
}

#[test]
fn size_sweep_is_planned_from_the_source() {
    let source = lines(&["#define XDIM 100", "int main() {}", "#define YDIM 50"]);
    let plan = run(&source, MAX_TARGET).unwrap();
    assert_eq!(plan.len(), 13);
    assert_eq!(plan[0], SizeStep { size: 5000, x: 100, y: 50 });
    assert_eq!(plan[1], SizeStep { size: 10000, x: 142, y: 70 });
    assert_eq!(plan[12], SizeStep { size: 20480000, x: 6400, y: 3200 });
    assert_eq!(plan, dim_sequence(100, 50, MAX_TARGET).unwrap());
}

#[test]
fn size_sweep_that_cannot_be_planned() {
    assert_eq!(
        run(&lines(&["#define XDIM 100"]), MAX_TARGET).unwrap_err(),
        SizeTestError::Dims(DimError::NotFound(Dim::Y))
    );
    assert_eq!(
        run(&lines(&["#define XDIM 0", "#define YDIM 5"]), MAX_TARGET).unwrap_err(),
        SizeTestError::Sizes(SizeError::EmptyBase)
    );
    assert_eq!(
        run(&lines(&["#define XDIM 100", "#define YDIM 50"]), 10).unwrap_err(),
        SizeTestError::Sizes(SizeError::OverCap)
    );
    assert_eq!(
        run(&lines(&["#define XDIM 1", "#define YDIM 1048576"]), MAX_TARGET).unwrap_err(),
        SizeTestError::Sizes(SizeError::NoSplit { size: 4096 })
    );
}

#[test]
fn size_sweep_goes_step_by_step() {
    let good = ExitResult { success: true, code: Some(0) };
    let bad = ExitResult { success: false, code: Some(9) };
    assert_eq!(size_test_start(3), SizeNext::Build { index: 0 });
    assert_eq!(size_test_start(0), SizeNext::Done);
    assert_eq!(size_test_step(0, 3, good), SizeNext::Build { index: 1 });
    assert_eq!(size_test_step(1, 3, good), SizeNext::Build { index: 2 });
    assert_eq!(size_test_step(2, 3, good), SizeNext::Done);
    assert_eq!(size_test_step(0, 3, bad), SizeNext::Failed { code: Some(9) });
    assert_eq!(size_test_step(2, 3, bad), SizeNext::Failed { code: Some(9) });
    assert_eq!(
        size_test_step(1, 3, ExitResult { success: false, code: None }),
        SizeNext::Failed { code: None }
    );
    assert_eq!(size_test_step(usize::MAX, usize::MAX, good), SizeNext::Done);
}

#[test]
fn label_names_dimensions_and_size() {
    assert_eq!(dim_label_with(100, 50, "20 KiB"), "100\u{d7}50 = 20 KiB");
    assert_eq!(dim_label(100, 50), Some("100\u{d7}50 = 20 KiB".to_string()));
    assert_eq!(dim_label(16, 16), Some("16\u{d7}16 = 1024 B".to_string()));
    assert_eq!(dim_label(6400, 3200), Some("6400\u{d7}3200 = 78 MiB".to_string()));
    assert_eq!(dim_label(0, 7), Some("0\u{d7}7 = 0 B".to_string()));
    assert_eq!(dim_label(u128::MAX, 2), None);
    assert_eq!(dim_label(u128::MAX / 4 + 1, 1), None);
}

#[test]
fn lines_are_rewritten() {
    assert_eq!(rewrite_line("#define XDIM 100", 7, 9), "#define XDIM 7");
    assert_eq!(rewrite_line("#define YDIM  100  ", 7, 9), "#define YDIM 9");
    assert_eq!(rewrite_line("#define ZDIM 100", 7, 9), "#define ZDIM 100");
    assert_eq!(rewrite_line("", 7, 9), "");
}

#[test]
fn source_is_rewritten() {
    let source = "#include <x>\r\n#define XDIM 100\n#define YDIM 50\r\n\nint main() {}";
    assert_eq!(
        rewrite_source(source, 202, 70),
        "#include <x>\n#define XDIM 202\n#define YDIM 70\n\nint main() {}\n"
    );
    assert_eq!(rewrite_source("", 1, 2), "");
}
