use rextedi::text::{grapheme_getindex, grapheme_length};

#[test]
fn grapheme_length_counts_clusters() {
    assert_eq!(grapheme_length(""), 0);
    assert_eq!(grapheme_length("abc"), 3);
    assert_eq!(grapheme_length("e\u{301}a"), 2);
    assert_eq!(grapheme_length("a\r\nb"), 3);
}

#[test]
fn grapheme_getindex_gives_byte_offsets() {
    assert_eq!(grapheme_getindex("añb", 0), 0);
    assert_eq!(grapheme_getindex("añb", 2), 3);
    assert_eq!(grapheme_getindex("e\u{301}x", 1), 3);
    assert_eq!(grapheme_getindex("añb", 3), 4);
    assert_eq!(grapheme_getindex("añb", 9), 4);
}

use rextedi::text::{concat_first, pick_cluster, pick_offset};

#[test]
fn pick_offset_falls_back_to_length() {
    let pairs = vec![(0usize, "a".to_string()), (1usize, "ñ".to_string())];
    assert_eq!(pick_offset(&pairs, 1, 3), 1);
    assert_eq!(pick_offset(&pairs, 2, 3), 3);
}

#[test]
fn pick_cluster_falls_back_to_nul() {
    let clusters = vec!["a".to_string(), "e\u{301}".to_string()];
    assert_eq!(pick_cluster(&clusters, 1), "e\u{301}");
    assert_eq!(pick_cluster(&clusters, 2), "\0");
}

#[test]
fn concat_first_takes_at_most_n() {
    let clusters = vec!["a".to_string(), "e\u{301}".to_string(), "c".to_string()];
    assert_eq!(concat_first(&clusters, 2), "ae\u{301}");
    assert_eq!(concat_first(&clusters, 5), "ae\u{301}c");
    assert_eq!(concat_first(&clusters, 0), "");
}

use rextedi::text::push_decimal;

#[test]
fn push_decimal_writes_digits() {
    let mut s = "n=".to_string();
    push_decimal(&mut s, 0);
    assert_eq!(s, "n=0");
    let mut t = String::new();
    push_decimal(&mut t, 1907);
    assert_eq!(t, "1907");
    let mut u = String::new();
    push_decimal(&mut u, usize::MAX);
    assert_eq!(u, usize::MAX.to_string());
}

#[test]
fn getindex_grows_with_index() {
    let line = "añe\u{301}b";
    let mut last = 0;
    for i in 0..6 {
        let b = grapheme_getindex(line, i);
        assert!(b >= last);
        last = b;
    }
    assert_eq!(last, line.len());
}
