use snippets::buffer;
use snippets::digits::{accepts, gen_digits, gen_silly_digits, push_if_silly};
use snippets::greeting::{judge, Verdict};
use snippets::hex::{hex_dump, DumpError, ReplaceEmpty};
use snippets::largest::{largest, largest_clone, largest_copy};
use snippets::report::{find_pair, find_triple};
use snippets::stats::{count_of, median, mode};

#[test]
fn largest_of_numbers_and_chars() {
    let number_list = vec![34, 50, 25, 100, 65];
    let char_list = vec!['y', 'm', 'a', 'q'];

    assert_eq!(largest_copy(&number_list), 100);
    assert_eq!(largest_copy(&char_list), 'y');

    assert_eq!(largest_clone(&number_list), 100);
    assert_eq!(largest_clone(&char_list), 'y');

    assert_eq!(*largest(&number_list), 100);
    assert_eq!(*largest(&char_list), 'y');
}

#[test]
fn largest_keeps_the_first_of_equals() {
    let list = vec![(1, "first"), (1, "second")];
    let by_number: Vec<i32> = list.iter().map(|p| p.0).collect();
    assert_eq!(largest_copy(&by_number), 1);
    let words = vec![String::from("b"), String::from("a"), String::from("b")];
    assert!(std::ptr::eq(largest(&words), &words[0]));
    assert_eq!(largest_copy(&[7]), 7);
}

#[test]
fn median_is_the_lower_middle() {
    assert_eq!(median(&[3, 1, 2]), 2);
    assert_eq!(median(&[4, 1, 3, 2]), 2);
    assert_eq!(median(&[5]), 5);
    assert_eq!(median(&[-1, -1, 7, 7]), -1);
    assert_eq!(median(&[i32::MAX, i32::MIN, 0]), 0);
}

#[test]
fn mode_occurs_most_often() {
    assert_eq!(mode(&[1, 2, 2, 3]), 2);
    assert_eq!(mode(&[9]), 9);
    assert_eq!(mode(&[4, 4, 5, 5, 5, 4, 4]), 4);
    let tied = mode(&[1, 2]);
    assert!(tied == 1 || tied == 2);
    assert_eq!(count_of(&[1, 2, 2, 3], 2), 2);
    assert_eq!(count_of(&[1, 2, 2, 3], 4), 0);
}

#[test]
fn random_digits_are_digits() {
    for num in [0usize, 1, 5, 100] {
        let digits = gen_digits(num);
        assert_eq!(digits.len(), num);
        assert!(digits.iter().all(|&d| d < 10));
    }
}

#[test]
fn silly_digits_take_what_fits() {
    assert_eq!(gen_silly_digits(3, &vec![1, 2, 1, 5, 9, 0]), vec![1, 5, 9]);
    assert_eq!(gen_silly_digits(8, &vec![4, 4, 5, 3, 6]), vec![4, 6]);
    assert_eq!(gen_silly_digits(0, &vec![4]), Vec::<u8>::new());
    assert_eq!(gen_silly_digits(2, &vec![]), Vec::<u8>::new());

    assert!(accepts(&vec![], 3));
    assert!(accepts(&vec![3], 5));
    assert!(!accepts(&vec![3], 4));
    assert!(!accepts(&vec![3], 3));
    assert!(!accepts(&vec![3], 2));
    assert!(!accepts(&vec![5, 3], 5));
    assert!(accepts(&vec![9, 0], 8));

    let mut digits = vec![7];
    assert!(!push_if_silly(&mut digits, 8));
    assert_eq!(digits, vec![7]);
    assert!(push_if_silly(&mut digits, 9));
    assert_eq!(digits, vec![7, 9]);
}

#[test]
fn buffer_is_read_and_written_one_line_apart() {
    let mut numbers: Vec<i64> = (1..=17).collect();
    assert_eq!(buffer::read(&numbers), 1 + 9 + 17);
    buffer::write(&mut numbers);
    let mut expected: Vec<i64> = (1..=17).collect();
    expected[0] = 0;
    expected[8] = 0;
    expected[16] = 0;
    assert_eq!(numbers, expected);
    assert_eq!(buffer::read(&numbers), 0);
    assert_eq!(buffer::read(&[]), 0);
    assert_eq!(buffer::read(&[5; 8]), 5);

    assert_eq!(buffer::make_buffer(64).len(), 8);
    assert_eq!(buffer::make_buffer(7).len(), 0);
}

#[test]
fn hex_dump_has_two_digits_for_each_byte() {
    assert_eq!(hex_dump(&[0, 0xab, 0xff]), Ok(String::from("00abff")));
    assert_eq!(hex_dump(&[]), Ok(String::new()));
    assert_eq!(hex_dump(&[0x9a; 256]).unwrap(), "9a".repeat(256));
    assert_eq!(hex_dump(&[0; 257]), Err(DumpError::TooLong));
    assert_eq!(hex_dump(&[0x10, 0x0f, 0x7e]), Ok(String::from("100f7e")));
}

#[test]
fn empty_strings_are_replaced() {
    assert_eq!("".replace_empty("<product>"), "<product>");
    assert_eq!("pump".replace_empty("<product>"), "pump");
    assert_eq!(" ".replace_empty("<product>"), " ");
}

#[test]
fn report_is_repaired() {
    let nums = [1721, 979, 366, 299, 675, 1456];
    assert_eq!(find_pair(&nums), Some((1721, 299, 514579)));
    assert_eq!(find_triple(&nums), Some((979, 366, 675, 241861950)));
    assert_eq!(find_pair(&[1, 2, 3]), None);
    assert_eq!(find_triple(&[1, 2, 3]), None);
    // an entry pairs with itself, and the first pair in order wins
    assert_eq!(find_pair(&[1010, 20, 2000]), Some((1010, 1010, 1020100)));
    assert_eq!(find_pair(&[20, 2000, 1010]), Some((20, 2000, 40000)));
    // sums are exact: 65535 + 2021 is not 2020
    assert_eq!(find_pair(&[65535, 2021]), None);
}

#[test]
fn guesses_are_judged() {
    assert_eq!(judge(50, 60), Verdict::TooLow);
    assert_eq!(judge(70, 60), Verdict::TooHigh);
    assert_eq!(judge(60, 60), Verdict::Right);
    assert_eq!(judge(0, 60), Verdict::OutOfRange);
    assert_eq!(judge(101, 60), Verdict::OutOfRange);
    assert_eq!(judge(1, 1), Verdict::Right);
    assert_eq!(judge(100, 100), Verdict::Right);
}
