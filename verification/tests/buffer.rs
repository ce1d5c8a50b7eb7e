use wln::Buffer;

#[test]
fn next_reads_the_source_in_order() {
    let mut buffer = Buffer::new(vec!['a', 'b', 'c']);
    assert_eq!(buffer.next(), Some('a'));
    assert_eq!(buffer.next(), Some('b'));
    assert_eq!(buffer.next(), Some('c'));
    assert_eq!(buffer.next(), None);
    assert_eq!(buffer.next(), None);
}

#[test]
fn empty_source_gives_nothing() {
    let mut buffer = Buffer::new(Vec::new());
    assert_eq!(buffer.next(), None);
}

#[test]
fn back_then_next_gives_the_character_back() {
    let mut buffer = Buffer::new(vec!['a', 'b']);
    assert_eq!(buffer.next(), Some('a'));
    buffer.back('a');
    assert_eq!(buffer.next(), Some('a'));
    assert_eq!(buffer.next(), Some('b'));
    assert_eq!(buffer.next(), None);
}

#[test]
fn pushed_back_characters_come_out_last_first() {
    let mut buffer = Buffer::new(vec!['z']);
    buffer.back('1');
    buffer.back('2');
    buffer.back('3');
    assert_eq!(buffer.next(), Some('3'));
    assert_eq!(buffer.next(), Some('2'));
    buffer.back('x');
    assert_eq!(buffer.next(), Some('x'));
    assert_eq!(buffer.next(), Some('1'));
    assert_eq!(buffer.next(), Some('z'));
    assert_eq!(buffer.next(), None);
}

#[test]
fn back_works_after_the_end() {
    let mut buffer = Buffer::new(vec!['a']);
    assert_eq!(buffer.next(), Some('a'));
    assert_eq!(buffer.next(), None);
    buffer.back('q');
    assert_eq!(buffer.next(), Some('q'));
    assert_eq!(buffer.next(), None);
}
