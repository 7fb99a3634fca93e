use exa::output::grid::{fit_into_grid, grid_view};

/// The same search, written plainly.
fn reference(across: bool, console_width: usize, widths: &[usize]) -> Option<(usize, Vec<usize>)> {
    for num_lines in 1..widths.len() {
        let mut num_columns = widths.len() / num_lines;
        if widths.len() % num_lines != 0 {
            num_columns += 1;
        }
        let separator_width = (num_columns - 1) * 2;
        if console_width < separator_width {
            continue;
        }
        let adjusted_width = console_width - separator_width;
        let mut column_widths = vec![0; num_columns];
        for (index, w) in widths.iter().enumerate() {
            let index = if across { index % num_columns } else { index / num_lines };
            column_widths[index] = column_widths[index].max(*w);
        }
        if column_widths.iter().sum::<usize>() < adjusted_width {
            return Some((num_lines, column_widths));
        }
    }
    None
}

#[test]
fn one_line_when_it_fits() {
    assert_eq!(fit_into_grid(false, 80, &vec![1, 2, 3, 1]), Some((1, vec![1, 2, 3, 1])));
}

#[test]
fn a_single_file_makes_no_grid() {
    assert_eq!(fit_into_grid(false, 80, &vec![3]), None);
    assert_eq!(fit_into_grid(true, 80, &vec![]), None);
}

#[test]
fn names_too_long_make_no_grid() {
    assert_eq!(fit_into_grid(false, 10, &vec![20, 20, 20]), None);
}

#[test]
fn downwards_and_across() {
    // Five names in a console too narrow for one line.
    let widths = vec![5, 1, 1, 5, 1];
    assert_eq!(fit_into_grid(false, 12, &widths), Some((4, vec![5, 1])));
    assert_eq!(fit_into_grid(true, 12, &widths), Some((2, vec![5, 1, 1])));
    assert_eq!(fit_into_grid(true, 11, &widths), reference(true, 11, &widths));
}

#[test]
fn agrees_with_the_plain_search() {
    let mut x: u64 = 12345;
    for _ in 0..3000 {
        x = x.wrapping_mul(6364136223846793005).wrapping_add(1442695040888963407);
        let n = (x >> 33) as usize % 30;
        let width = (x >> 20) as usize % 120;
        let across = x & 1 == 1;
        let mut ws = Vec::new();
        for k in 0..n {
            ws.push(((x >> (k % 40)) as usize) % 25);
        }
        assert_eq!(fit_into_grid(across, width, &ws), reference(across, width, &ws), "{:?} {} {}", ws, width, across);
    }
}

#[test]
fn grid_text() {
    let names: Vec<String> = ["a", "bb", "ccc", "d"].iter().map(|s| s.to_string()).collect();
    assert_eq!(grid_view(false, 80, &names, &vec![1, 2, 3, 1]), Some(vec!["a  bb  ccc  d".to_string()]));
    let names: Vec<String> = ["one", "two", "three", "four", "five"].iter().map(|s| s.to_string()).collect();
    let widths = vec![3, 3, 5, 4, 4];
    assert_eq!(
        grid_view(false, 14, &names, &widths),
        Some(vec!["one    four".to_string(), "two    five".to_string(), "three  ".to_string()])
    );
    assert_eq!(
        grid_view(true, 14, &names, &widths),
        Some(vec!["one    two".to_string(), "three  four".to_string(), "five   ".to_string()])
    );
    assert_eq!(grid_view(false, 4, &names, &widths), None);
}
