use deet::grid::Grid;
use deet::rdiff::{lcs, print_diff};

fn letters(text: &str) -> Vec<String> {
    text.chars().map(|c| c.to_string()).collect()
}

#[test]
fn test_lcs() {
    let mut expected = Grid::new(5, 4);
    expected.set(1, 1, 1).unwrap();
    expected.set(1, 2, 1).unwrap();
    expected.set(1, 3, 1).unwrap();
    expected.set(2, 1, 1).unwrap();
    expected.set(2, 2, 1).unwrap();
    expected.set(2, 3, 2).unwrap();
    expected.set(3, 1, 1).unwrap();
    expected.set(3, 2, 1).unwrap();
    expected.set(3, 3, 2).unwrap();
    expected.set(4, 1, 1).unwrap();
    expected.set(4, 2, 2).unwrap();
    expected.set(4, 3, 2).unwrap();

    println!("Expected:");
    println!("{}", expected.display());
    let result = lcs(
        &"abcd".chars().map(|c| c.to_string()).collect(),
        &"adb".chars().map(|c| c.to_string()).collect(),
    );
    println!("Got:");
    println!("{}", result.display());
    assert_eq!(result.size(), expected.size());
    for row in 0..expected.size().0 {
        for col in 0..expected.size().1 {
            assert_eq!(result.get(row, col), expected.get(row, col));
        }
    }
}

#[test]
fn lcs_of_empty_texts() {
    let table = lcs(&Vec::new(), &Vec::new());
    assert_eq!(table.size(), (1, 1));
    assert_eq!(table.get(0, 0), Some(0));
    let one = lcs(&letters("abc"), &Vec::new());
    assert_eq!(one.size(), (4, 1));
    assert_eq!(one.get(3, 0), Some(0));
}

#[test]
fn lcs_corner_is_length_of_longest_common_subsequence() {
    let table = lcs(&letters("AGGTAB"), &letters("GXTXAYB"));
    assert_eq!(table.get(6, 7), Some(4));
    let same = lcs(&letters("hello"), &letters("hello"));
    assert_eq!(same.get(5, 5), Some(5));
    let apart = lcs(&letters("abc"), &letters("xyz"));
    assert_eq!(apart.get(3, 3), Some(0));
}

#[test]
fn grid_starts_blank_and_knows_its_size() {
    let grid = Grid::new(2, 3);
    assert_eq!(grid.size(), (2, 3));
    for row in 0..2 {
        for col in 0..3 {
            assert_eq!(grid.get(row, col), Some(0));
        }
    }
    assert_eq!(Grid::new(0, 4).size(), (0, 4));
}

#[test]
fn grid_refuses_locations_out_of_bounds() {
    let mut grid = Grid::new(2, 3);
    assert_eq!(grid.get(2, 0), None);
    assert_eq!(grid.get(0, 3), None);
    assert!(grid.set(2, 0, 1).is_err());
    assert!(grid.set(0, 3, 1).is_err());
    assert!(grid.set(1, 2, 9).is_ok());
    assert_eq!(grid.get(1, 2), Some(9));
    assert_eq!(grid.get(1, 1), Some(0));
    assert_eq!(grid.get(0, 2), Some(0));
}

#[test]
fn grid_display_and_clear() {
    let mut grid = Grid::new(2, 2);
    grid.set(0, 1, 12).unwrap();
    grid.set(1, 0, 3).unwrap();
    assert_eq!(grid.display(), "0, 12, \n3, 0, \n");
    grid.clear();
    assert_eq!(grid.display(), "0, 0, \n0, 0, \n");
    assert_eq!(grid.size(), (2, 2));
    assert_eq!(Grid::new(0, 0).display(), "");
}

#[test]
fn print_diff_marks_each_side() {
    let a = vec!["one".to_string(), "two".to_string(), "three".to_string()];
    let b = vec!["one".to_string(), "2".to_string(), "three".to_string(), "four".to_string()];
    let table = lcs(&a, &b);
    let lines = print_diff(&table, &a, &b, a.len(), b.len(), 1);
    assert_eq!(
        lines,
        vec!["1:   one", "2: < two", "2: > 2", "3:   three", "4: > four"]
    );
}

#[test]
fn print_diff_pads_line_numbers() {
    let a = vec!["x".to_string()];
    let b = vec!["y".to_string()];
    let table = lcs(&a, &b);
    let lines = print_diff(&table, &a, &b, 1, 1, 3);
    assert_eq!(lines, vec!["  1: < x", "  1: > y"]);
    let none = print_diff(&table, &a, &b, 0, 0, 3);
    assert!(none.is_empty());
}

#[test]
fn print_diff_of_equal_texts_has_no_marks() {
    let a = letters("abc");
    let table = lcs(&a, &a);
    let lines = print_diff(&table, &a, &a, 3, 3, 2);
    assert_eq!(lines, vec![" 1:   a", " 2:   b", " 3:   c"]);
}
