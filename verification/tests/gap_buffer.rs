use miv::gap_buffer::GapBuffer;
use miv::gap_buffer::splice;

fn remove_padding(buffer: Vec<char>) -> Vec<char> {
    buffer.into_iter().filter(|c| *c != '\0').collect()
}

#[test]
fn test_splice_range_bigger_than_vec() {
    let mut vec = vec![1, 2, 3, 4, 5];
    let splice_vec = vec![6, 7, 8];
    splice(&mut vec, 1, Some(4), &splice_vec);
    assert_eq!(vec, vec![1, 6, 7, 8, 5]);
}

#[test]
fn test_splice_range_unbounded() {
    let mut vec = vec![1, 2, 3, 4, 5];
    let splice_vec = vec![6, 7, 8];
    splice(&mut vec, 1, None, &splice_vec);
    assert_eq!(vec, vec![1, 6, 7, 8]);
}

#[test]
fn test_splice_range_smaller_than_vec() {
    let mut vec = vec![1, 2, 3, 4, 5];
    let splice_vec = vec![6, 7, 8, 9, 10];
    splice(&mut vec, 1, Some(4), &splice_vec);
    assert_eq!(vec, vec![1, 6, 7, 8, 5]);
}

#[test]
fn test_splice_range_empty() {
    let mut vec = vec![1, 2, 3, 4, 5];
    let splice_vec = vec![6, 7, 8, 9, 10];
    splice(&mut vec, 1, Some(1), &splice_vec);
    assert_eq!(vec, vec![1, 6, 7, 8, 9, 10, 2, 3, 4, 5]);
}

#[test]
fn test_gap_buffer() {
    let mut buffer = GapBuffer::new(10);
    let string_vec = "hello world".chars().collect::<Vec<char>>();
    buffer.insert(&string_vec);
    buffer.move_gap(2);
    buffer.delete(3);
    buffer.insert(&string_vec);
    assert_eq!(
        remove_padding(buffer.storage()),
        "hello worldllo world".chars().collect::<Vec<char>>()
    );
}

#[test]
fn test_gap_buffer_delete_makes_difference() {
    // here, the delete actually makes a difference
    let mut buffer = GapBuffer::new(10);
    let string_vec = "hello world".chars().collect::<Vec<char>>();
    let string_vec2 = "hello".chars().collect::<Vec<char>>();
    buffer.insert(&string_vec);
    buffer.move_gap(8);
    buffer.delete(3);
    buffer.insert(&string_vec2);
    assert_eq!(
        remove_padding(buffer.storage()),
        "hellohellodrld".chars().collect::<Vec<char>>()
    );
}

#[test]
fn test_gap_buffer_empty() {
    let mut buffer = GapBuffer::new_empty();
    let string_vec = "hello world".chars().collect::<Vec<char>>();
    buffer.insert(&string_vec);
    buffer.move_gap(2);
    buffer.delete(3);
    buffer.insert(&string_vec);
    assert_eq!(
        remove_padding(buffer.storage()),
        "hello worldllo world".chars().collect::<Vec<char>>()
    );
}

#[test]
fn test_gap_buffer_insert() {
    let mut buffer = GapBuffer::new(10);
    let string_vec = "hello world".chars().collect::<Vec<char>>();
    buffer.insert(&string_vec);
    assert_eq!(
        remove_padding(buffer.storage()),
        "hello world".chars().collect::<Vec<char>>()
    );
}

#[test]
fn test_gap_buffer_insert_realloc() {
    let mut buffer = GapBuffer::new(10);
    let string_vec = "hello world".chars().collect::<Vec<char>>();
    buffer.insert(&string_vec);
    buffer.insert(&string_vec);
    assert_eq!(
        remove_padding(buffer.storage()),
        "hello worldhello world".chars().collect::<Vec<char>>()
    );
}

#[test]
fn test_gap_buffer_insert_realloc_2() {
    let mut buffer = GapBuffer::new(10);
    let string_vec = "hello world".chars().collect::<Vec<char>>();
    buffer.insert(&string_vec);
    buffer.insert(&string_vec);
    buffer.insert(&string_vec);
    assert_eq!(
        remove_padding(buffer.storage()),
        "hello worldhello worldhello world"
            .chars()
            .collect::<Vec<char>>()
    );
}

#[test]
fn test_gap_buffer_with_padding_checked() {
    let mut buffer = GapBuffer::new_empty();
    let string_vec = "hello world".chars().collect::<Vec<char>>();
    buffer.insert(&string_vec);
    buffer.move_gap(2);
    buffer.delete(3);
    buffer.insert(&string_vec);
    assert_eq!(
        buffer.storage(),
        "hello world\0\0llo world".chars().collect::<Vec<char>>()
    );
}

#[test]
fn test_end_to_end_growth_scenario() {
    let mut buffer = GapBuffer::new(10);
    assert_eq!(buffer.capacity(), 10);
    let string_vec = "hello world".chars().collect::<Vec<char>>();
    // eleven items outgrow the ten slots: one growth event
    buffer.insert(&string_vec);
    assert_eq!(buffer.capacity(), 20);
    assert_eq!(buffer.to_vec(), string_vec);
    // delete before the gap, then copy the text in again
    buffer.move_gap(2);
    buffer.delete(3);
    buffer.insert(&string_vec);
    assert_eq!(
        buffer.to_vec(),
        "hello worldllo world".chars().collect::<Vec<char>>()
    );
}

#[test]
fn test_round_trip_inserts_concatenate() {
    // consecutive inserts with no deletes or moves concatenate in order
    let mut buffer = GapBuffer::new(3);
    buffer.insert(&['a', 'b']);
    buffer.insert(&['c', 'd']);
    buffer.insert(&['e']);
    assert_eq!(buffer.to_vec(), vec!['a', 'b', 'c', 'd', 'e']);
}

#[test]
fn test_growth_places_gap_after_inserted_text() {
    let mut buffer = GapBuffer::new(4);
    buffer.insert(&['a', 'b', 'c', 'd', 'e', 'f']);
    // the fresh gap sits immediately after the inserted text, not at the
    // store's physical end
    assert_eq!(buffer.gap_index(), 6);
    assert!(buffer.gap_size() > 0);
    assert_eq!(buffer.capacity(), 8);
    // a following sequential insert needs no move_gap to stay cheap
    buffer.insert(&['g', 'h']);
    assert_eq!(buffer.gap_index(), 8);
    assert_eq!(buffer.to_vec(), vec!['a', 'b', 'c', 'd', 'e', 'f', 'g', 'h']);
}

#[test]
fn test_delete_clamps_at_buffer_start() {
    let mut buffer = GapBuffer::new(5);
    buffer.insert(&['a', 'b']);
    // more than what lies before the gap: clamps, never fails
    buffer.delete(10);
    assert_eq!(buffer.gap_index(), 0);
    assert_eq!(buffer.to_vec(), Vec::<char>::new());
}

#[test]
fn test_delete_partial_before_gap() {
    let mut buffer = GapBuffer::new(8);
    buffer.insert(&['a', 'b', 'c', 'd']);
    buffer.move_gap(3);
    buffer.delete(2);
    assert_eq!(buffer.to_vec(), vec!['a', 'd']);
    assert_eq!(buffer.gap_index(), 1);
}

#[test]
fn test_move_gap_is_idempotent() {
    let mut buffer = GapBuffer::new(6);
    buffer.insert(&['a', 'b', 'c', 'd']);
    buffer.move_gap(2);
    let once_content = buffer.to_vec();
    let once_index = buffer.gap_index();
    let once_storage = buffer.storage();
    buffer.move_gap(2);
    assert_eq!(buffer.to_vec(), once_content);
    assert_eq!(buffer.gap_index(), once_index);
    assert_eq!(buffer.storage(), once_storage);
}

#[test]
fn test_insert_empty_slice() {
    let mut buffer = GapBuffer::new(4);
    buffer.insert(&['a']);
    buffer.insert(&[]);
    assert_eq!(buffer.to_vec(), vec!['a']);
    assert_eq!(buffer.gap_index(), 1);
}

#[test]
fn test_move_gap_to_end_and_back() {
    let mut buffer = GapBuffer::new(8);
    buffer.insert(&['x', 'y', 'z']);
    buffer.move_gap(0);
    assert_eq!(buffer.to_vec(), vec!['x', 'y', 'z']);
    buffer.move_gap(3);
    assert_eq!(buffer.to_vec(), vec!['x', 'y', 'z']);
    assert_eq!(buffer.gap_index(), 3);
}
