use systemd::record::{decode_fields, order_bytes, same_bytes, split_field, JournalRecord, Order};

fn text(bytes: &[u8]) -> String {
    String::from_utf8(bytes.to_vec()).unwrap()
}

#[test]
fn field_is_split_on_the_first_separator_only() {
    let f = split_field(b"MESSAGE=hello=world").unwrap();
    assert_eq!(text(&f.name), "MESSAGE");
    assert_eq!(text(&f.value), "hello=world");
}

#[test]
fn split_field_edge_cases() {
    assert!(split_field(b"").is_none());
    assert!(split_field(b"MESSAGE").is_none());
    let f = split_field(b"=").unwrap();
    assert!(f.name.is_empty() && f.value.is_empty());
    let f = split_field(b"=x").unwrap();
    assert!(f.name.is_empty());
    assert_eq!(f.value, b"x");
    let f = split_field(b"KEY=").unwrap();
    assert_eq!(f.name, b"KEY");
    assert!(f.value.is_empty());
    let f = split_field(b"A==").unwrap();
    assert_eq!(f.name, b"A");
    assert_eq!(f.value, b"=");
    let f = split_field(&[0xff, b'=', 0x00, 0xfe]).unwrap();
    assert_eq!(f.name, vec![0xff]);
    assert_eq!(f.value, vec![0x00, 0xfe]);
}

#[test]
fn decoded_record_has_one_entry_for_each_buffer() {
    let bufs: Vec<Vec<u8>> = vec![
        b"PRIORITY=6".to_vec(),
        b"MESSAGE=started".to_vec(),
        b"_PID=1".to_vec(),
        b"_COMM=systemd".to_vec(),
    ];
    let r = decode_fields(&bufs).unwrap();
    assert_eq!(r.len(), 4);
    assert_eq!(r.get(b"PRIORITY").unwrap(), b"6");
    assert_eq!(r.get(b"MESSAGE").unwrap(), b"started");
    assert_eq!(r.get(b"_PID").unwrap(), b"1");
    assert_eq!(r.get(b"_COMM").unwrap(), b"systemd");
    assert!(r.get(b"_UID").is_none());
}

#[test]
fn decoded_record_is_ordered_by_name() {
    let bufs: Vec<Vec<u8>> =
        vec![b"b=2".to_vec(), b"a=1".to_vec(), b"ab=3".to_vec(), b"B=4".to_vec(), b"=5".to_vec()];
    let r = decode_fields(&bufs).unwrap();
    assert_eq!(r.len(), 5);
    let names: Vec<String> = (0..r.len()).map(|i| text(&r.entry(i).name)).collect();
    assert_eq!(names, vec!["", "B", "a", "ab", "b"]);
    let values: Vec<String> = (0..r.len()).map(|i| text(&r.entry(i).value)).collect();
    assert_eq!(values, vec!["5", "4", "1", "3", "2"]);
}

#[test]
fn later_buffer_of_a_name_replaces_the_earlier() {
    let bufs: Vec<Vec<u8>> = vec![b"A=1".to_vec(), b"B=2".to_vec(), b"A=3".to_vec()];
    let r = decode_fields(&bufs).unwrap();
    assert_eq!(r.len(), 2);
    assert_eq!(r.get(b"A").unwrap(), b"3");
    assert_eq!(r.get(b"B").unwrap(), b"2");
}

#[test]
fn decode_fails_at_the_first_buffer_without_separator() {
    let bufs: Vec<Vec<u8>> = vec![b"A=1".to_vec(), b"B".to_vec(), b"C".to_vec()];
    assert_eq!(decode_fields(&bufs).err(), Some(1));
    let bufs: Vec<Vec<u8>> = vec![b"".to_vec()];
    assert_eq!(decode_fields(&bufs).err(), Some(0));
}

#[test]
fn decode_of_no_buffers_is_the_empty_record() {
    let r = decode_fields(&Vec::new()).unwrap();
    assert_eq!(r.len(), 0);
    assert!(r.get(b"MESSAGE").is_none());
}

#[test]
fn record_insert_and_get() {
    let mut r = JournalRecord::new();
    assert_eq!(r.len(), 0);
    r.insert(b"MESSAGE".to_vec(), b"one".to_vec());
    r.insert(b"CODE_LINE".to_vec(), b"12".to_vec());
    assert_eq!(r.len(), 2);
    r.insert(b"MESSAGE".to_vec(), b"two".to_vec());
    assert_eq!(r.len(), 2);
    assert_eq!(r.get(b"MESSAGE").unwrap(), b"two");
    assert_eq!(r.get(b"CODE_LINE").unwrap(), b"12");
    assert_eq!(r.entry(0).name, b"CODE_LINE");
    assert_eq!(r.entry(1).name, b"MESSAGE");
    assert_eq!(r.entry(1).value, b"two");
}

#[test]
fn placeholder_record() {
    let r = JournalRecord::placeholder();
    assert_eq!(r.len(), 1);
    assert_eq!(r.get(b"Dummy").unwrap(), b"Dummy");
    assert_eq!(r.entry(0).name, b"Dummy");
}

#[test]
fn byte_strings_compared() {
    assert!(same_bytes(b"", b""));
    assert!(same_bytes(b"abc", b"abc"));
    assert!(!same_bytes(b"abc", b"abd"));
    assert!(!same_bytes(b"abc", b"ab"));
    assert_eq!(order_bytes(b"", b""), Order::Same);
    assert_eq!(order_bytes(b"abc", b"abc"), Order::Same);
    assert_eq!(order_bytes(b"", b"a"), Order::Before);
    assert_eq!(order_bytes(b"a", b""), Order::After);
    assert_eq!(order_bytes(b"ab", b"abc"), Order::Before);
    assert_eq!(order_bytes(b"abd", b"abc"), Order::After);
    assert_eq!(order_bytes(b"B", b"a"), Order::Before);
    assert_eq!(order_bytes(&[0xff], &[0x7f, 0x01]), Order::After);
}
