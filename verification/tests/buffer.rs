use filter_engine::buffer::ByteBuffer;

fn buffer_of(chunks: &[&[u8]]) -> ByteBuffer {
    let mut buffer = ByteBuffer::new();
    for chunk in chunks {
        buffer.append(chunk);
    }
    buffer
}

#[test]
fn new_buffer_is_empty() {
    let buffer = ByteBuffer::new();
    assert_eq!(buffer.copy(), Vec::<u8>::new());
    assert_eq!(buffer.slices_count(), 0);
}

#[test]
fn append_then_copy_concatenates_in_call_order() {
    let mut buffer = ByteBuffer::new();
    buffer.append(b"hello");
    buffer.append(b", ");
    buffer.append(b"world");
    assert_eq!(buffer.copy(), b"hello, world".to_vec());
    assert_eq!(buffer.slices_count(), 3);
}

#[test]
fn copy_does_not_change_the_buffer() {
    let buffer = buffer_of(&[b"ab", b"cd"]);
    let first = buffer.copy();
    let second = buffer.copy();
    assert_eq!(first, second);
    assert_eq!(buffer.slices_count(), 2);
}

#[test]
fn empty_append_is_a_no_op() {
    let mut buffer = buffer_of(&[b"ab"]);
    buffer.append(b"");
    assert_eq!(buffer.slices_count(), 1);
    assert_eq!(buffer.copy(), b"ab".to_vec());
}

#[test]
fn empty_prepend_is_a_no_op() {
    let mut buffer = buffer_of(&[b"ab"]);
    buffer.prepend(b"");
    assert_eq!(buffer.slices_count(), 1);
    assert_eq!(buffer.copy(), b"ab".to_vec());
}

#[test]
fn empty_operations_on_an_empty_buffer_do_nothing() {
    let mut buffer = ByteBuffer::new();
    buffer.append(b"");
    buffer.prepend(b"");
    buffer.replace(b"");
    assert_eq!(buffer.slices_count(), 0);
    assert_eq!(buffer.copy(), Vec::<u8>::new());
}

#[test]
fn prepend_puts_data_in_front() {
    let mut buffer = buffer_of(&[b"body"]);
    buffer.prepend(b"head-");
    assert_eq!(buffer.copy(), b"head-body".to_vec());
    assert_eq!(buffer.slices_count(), 2);
}

#[test]
fn prepend_on_empty_buffer_is_append() {
    let mut prepended = ByteBuffer::new();
    prepended.prepend(b"data");
    let mut appended = ByteBuffer::new();
    appended.append(b"data");
    assert_eq!(prepended.copy(), appended.copy());
    assert_eq!(prepended.slices_count(), appended.slices_count());
}

#[test]
fn replace_then_copy_is_the_replacement() {
    let mut buffer = buffer_of(&[b"one", b"two", b"three"]);
    buffer.replace(b"fresh");
    assert_eq!(buffer.copy(), b"fresh".to_vec());
    assert_eq!(buffer.slices_count(), 1);
}

#[test]
fn replace_on_empty_buffer_installs_the_data() {
    let mut buffer = ByteBuffer::new();
    buffer.replace(b"x");
    assert_eq!(buffer.copy(), b"x".to_vec());
}

#[test]
fn replace_with_nothing_empties_the_buffer() {
    let mut buffer = buffer_of(&[b"one", b"two"]);
    buffer.replace(b"");
    assert_eq!(buffer.copy(), Vec::<u8>::new());
    assert_eq!(buffer.slices_count(), 0);
}

#[test]
fn append_copies_the_data() {
    let mut source = b"abc".to_vec();
    let mut buffer = ByteBuffer::new();
    buffer.append(&source);
    source[0] = b'z';
    assert_eq!(buffer.copy(), b"abc".to_vec());
}

#[test]
fn slices_cover_the_content_in_order() {
    let mut buffer = buffer_of(&[b"ab", b"cde", b"f"]);
    let slices = buffer.slices();
    assert_eq!(slices.len(), 3);
    assert_eq!(&*slices[0], b"ab");
    assert_eq!(&*slices[1], b"cde");
    assert_eq!(&*slices[2], b"f");
}

#[test]
fn writing_through_slices_changes_the_copy() {
    let mut buffer = buffer_of(&[b"ab", b"cde"]);
    for slice in buffer.slices() {
        for byte in slice {
            *byte = b'X';
        }
    }
    assert_eq!(buffer.copy(), vec![b'X'; 5]);
    assert_eq!(buffer.slices_count(), 2);
}

#[test]
fn writing_one_byte_through_a_slice_changes_that_byte_only() {
    let mut buffer = buffer_of(&[b"ab", b"cde"]);
    {
        let mut slices = buffer.slices();
        slices[1][2] = b'!';
    }
    assert_eq!(buffer.copy(), b"abcd!".to_vec());
}

#[test]
fn slice_mut_gives_one_segment() {
    let mut buffer = buffer_of(&[b"ab", b"cde"]);
    match buffer.slice_mut(1) {
        Some(slice) => {
            assert_eq!(&*slice, b"cde");
            slice[0] = b'C';
        }
        None => panic!("segment 1 exists"),
    }
    assert_eq!(buffer.copy(), b"abCde".to_vec());
}

#[test]
fn slice_mut_past_the_end_is_none() {
    let mut buffer = buffer_of(&[b"ab"]);
    assert!(buffer.slice_mut(1).is_none());
    assert!(ByteBuffer::new().slice_mut(0).is_none());
}

#[test]
fn fill_overwrites_every_byte_in_place() {
    let mut buffer = buffer_of(&[b"ab", b"cde"]);
    buffer.fill(b'Y');
    assert_eq!(buffer.copy(), vec![b'Y'; 5]);
    assert_eq!(buffer.slices_count(), 2);
}

#[test]
fn reader_reads_across_segments() {
    let buffer = buffer_of(&[b"abc", b"de"]);
    let mut reader = buffer.reader();
    let mut out = vec![0u8; 2];
    assert_eq!(reader.read(&mut out), 2);
    assert_eq!(out, b"ab".to_vec());
    assert_eq!(reader.read(&mut out), 2);
    assert_eq!(out, b"cd".to_vec());
    assert_eq!(reader.read(&mut out), 1);
    assert_eq!(out, b"ed".to_vec());
    assert_eq!(reader.read(&mut out), 0);
    assert_eq!(out, b"ed".to_vec());
}

#[test]
fn reader_signals_end_with_zero_again_and_again() {
    let buffer = buffer_of(&[b"a"]);
    let mut reader = buffer.reader();
    let mut out = vec![0u8; 4];
    assert_eq!(reader.read(&mut out), 1);
    assert_eq!(reader.read(&mut out), 0);
    assert_eq!(reader.read(&mut out), 0);
}

#[test]
fn reader_of_empty_buffer_reads_nothing() {
    let buffer = ByteBuffer::new();
    let mut reader = buffer.reader();
    let mut out = vec![7u8; 3];
    assert_eq!(reader.read(&mut out), 0);
    assert_eq!(out, vec![7u8; 3]);
}

#[test]
fn reader_with_empty_output_reads_nothing() {
    let buffer = buffer_of(&[b"abc"]);
    let mut reader = buffer.reader();
    let mut none: Vec<u8> = Vec::new();
    assert_eq!(reader.read(&mut none), 0);
    let mut out = vec![0u8; 3];
    assert_eq!(reader.read(&mut out), 3);
    assert_eq!(out, b"abc".to_vec());
}

#[test]
fn reader_reads_everything_that_copy_returns() {
    let buffer = buffer_of(&[b"The ", b"quick brown", b" fox"]);
    let mut reader = buffer.reader();
    let mut all = Vec::new();
    let mut out = vec![0u8; 5];
    loop {
        let n = reader.read(&mut out);
        if n == 0 {
            break;
        }
        all.extend_from_slice(&out[..n]);
    }
    assert_eq!(all, buffer.copy());
}
