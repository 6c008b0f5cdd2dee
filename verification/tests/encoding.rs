use trainer::input::Config;
use trainer::layer::SCALAR_ONE;
use trainer::string::{char_to_num, get_input_size, string_to_data, OTHER_SLOT};

fn one_hot(len: usize, marks: &[usize]) -> Vec<u32> {
    let mut v = vec![0u32; len];
    for &m in marks {
        v[m] = SCALAR_ONE;
    }
    v
}

#[test]
fn char_classes() {
    assert_eq!(char_to_num('a'), Some(0));
    assert_eq!(char_to_num('z'), Some(25));
    assert_eq!(char_to_num('A'), Some(0));
    assert_eq!(char_to_num('Z'), Some(25));
    assert_eq!(char_to_num('m'), Some(12));
    assert_eq!(char_to_num(' '), None);
    assert_eq!(char_to_num('\t'), None);
    assert_eq!(char_to_num('\u{00A0}'), None);
    assert_eq!(char_to_num('('), Some(OTHER_SLOT));
    assert_eq!(char_to_num('7'), Some(OTHER_SLOT));
    assert_eq!(char_to_num('é'), Some(OTHER_SLOT));
}

#[test]
fn input_size_is_slots_per_char() {
    assert_eq!(get_input_size(1), 27);
    assert_eq!(get_input_size(10), 270);
}

#[test]
fn single_word_is_aligned_to_the_tail() {
    let config = Config::new(3, 5000, vec![3]).unwrap();
    let data = string_to_data("ab", &config);
    // "ab" is the last plain word: 'a' sits in the last character block,
    // 'b' in the one before it.
    assert_eq!(data, one_hot(81, &[2 * 27, 1 * 27 + 1]));
}

#[test]
fn empty_label_encodes_to_zero() {
    let config = Config::new(3, 5000, vec![3]).unwrap();
    let data = string_to_data("", &config);
    assert_eq!(data, vec![0u32; 81]);
}

#[test]
fn head_words_are_marked_from_the_front() {
    let config = Config::new(8, 5000, vec![3]).unwrap();
    // "ab" is the last plain word and moves to the tail; "cd" stays at the
    // head, marked from position zero.
    let data = string_to_data("cd ab", &config);
    let marks = [
        0 * 27 + 2,  // 'c' at head position 0
        1 * 27 + 3,  // 'd' at head position 1
        7 * 27 + 0,  // 'a' in the final character block
        6 * 27 + 1,  // 'b' in the block before it
    ];
    assert_eq!(data, one_hot(8 * 27, &marks));
}

#[test]
fn paren_word_never_moves_to_the_tail() {
    let config = Config::new(5, 5000, vec![3]).unwrap();
    // "a" is the last word without a leading parenthesis; "(x)" stays at the
    // head.
    let data = string_to_data("a (x)", &config);
    let marks = [
        0 * 27 + 26, // '(' at head position 0
        1 * 27 + 23, // 'x' at head position 1
        2 * 27 + 26, // ')' at head position 2
        4 * 27 + 0,  // 'a' in the final character block
    ];
    assert_eq!(data, one_hot(5 * 27, &marks));
}

#[test]
fn all_paren_words_leave_no_tail() {
    let config = Config::new(8, 5000, vec![3]).unwrap();
    // Every word starts with '(': nothing moves to the tail and the words
    // are joined by single spaces at the head.
    let data = string_to_data("(a) (b)", &config);
    let marks = [
        0 * 27 + 26, // '('
        1 * 27 + 0,  // 'a'
        2 * 27 + 26, // ')'
        // position 3 is the joining space: no mark
        4 * 27 + 26, // '('
        5 * 27 + 1,  // 'b'
        6 * 27 + 26, // ')'
    ];
    assert_eq!(data, one_hot(8 * 27, &marks));
}

#[test]
fn surplus_whitespace_collapses() {
    let config = Config::new(6, 5000, vec![3]).unwrap();
    // Words are re-joined by single spaces, so the doubled space between
    // "c" and "d" does not shift the head marks.
    let data = string_to_data("c  d e", &config);
    let marks = [
        0 * 27 + 2,  // 'c'
        2 * 27 + 3,  // 'd' (one joining space between the head words)
        5 * 27 + 4,  // 'e' right-aligned at the tail
    ];
    assert_eq!(data, one_hot(6 * 27, &marks));
}
